//! An executable model of the generated builder: a builder instance animates
//! a declaration bundle, so that the behaviour the generator prescribes can
//! be exercised and proved.
//!
//! An instance is produced fresh with every slot at its empty default,
//! mutated zero or more times through `apply`, and finalized by `build`,
//! which either yields the fully populated record or the first missing
//! required field in declaration order.  `build` drains required and
//! optional slots but only snapshots accumulating ones, so a second `build`
//! without intervening mutation fails for any required field while
//! reproducing every accumulated sequence; that asymmetry is deliberate.

use vstd::prelude::*;

use crate::synth::{desc_wf, kinds_agree, BuilderDescription, ExtractRule, MethodKind};

verus! {

/// The dynamic state of one builder storage slot.
#[derive(Debug, PartialEq, Eq)]
pub enum SlotState {
    /// Storage of a required or optional field: an optional value.
    Pending(Option<String>),
    /// Storage of an accumulating field: the values gathered so far.
    Gathered(Vec<String>),
}

/// The model of one slot's dynamic state.
pub ghost enum SlotModel {
    PendingSlot(Option<Seq<char>>),
    GatheredSlot(Seq<Seq<char>>),
}

/// The values of a sequence of strings.
pub open spec fn values_view(v: Seq<String>) -> Seq<Seq<char>> {
    v.map_values(|s: String| s@)
}

impl View for SlotState {
    type V = SlotModel;

    open spec fn view(&self) -> SlotModel {
        match self {
            SlotState::Pending(o) => SlotModel::PendingSlot(
                match o {
                    Option::Some(s) => Option::Some(s@),
                    Option::None => Option::None,
                },
            ),
            SlotState::Gathered(v) => SlotModel::GatheredSlot(values_view(v@)),
        }
    }
}

/// The model of one field's plan: its name, the name of the one mutator
/// method that targets its slot, and its extraction rule.
pub ghost struct FieldModel {
    pub field_name: Seq<char>,
    pub method_name: Seq<char>,
    pub rule: ExtractRule,
}

/// The model of a builder instance: the per-field plan and the slot states,
/// both in field declaration order.
pub ghost struct InstanceModel {
    pub plan: Seq<FieldModel>,
    pub state: Seq<SlotModel>,
}

/// A slot's state has the shape its rule prescribes.
pub open spec fn state_matches(rule: ExtractRule, s: SlotModel) -> bool {
    match rule {
        ExtractRule::TakeRequired => s is PendingSlot,
        ExtractRule::TakeOptional => s is PendingSlot,
        ExtractRule::SnapshotSequence => s is GatheredSlot,
    }
}

/// Well-formedness of an instance model: one slot per field, each of the
/// shape its rule prescribes.
pub open spec fn wf_model(m: InstanceModel) -> bool {
    &&& m.state.len() == m.plan.len()
    &&& forall|i: int|
        0 <= i < m.plan.len() ==> state_matches((#[trigger] m.plan[i]).rule, m.state[i])
}

/// The first index at or after `i` whose method bears the given name, or
/// the length when none does.
pub open spec fn dispatch_from(plan: Seq<FieldModel>, method: Seq<char>, i: int) -> int
    recommends
        0 <= i <= plan.len(),
    decreases plan.len() - i,
{
    if i < 0 || i >= plan.len() {
        plan.len() as int
    } else if plan[i].method_name == method {
        i
    } else {
        dispatch_from(plan, method, i + 1)
    }
}

/// The slot a method name reaches: the first field whose method bears the
/// name, or the length when no method does.
pub open spec fn dispatch(plan: Seq<FieldModel>, method: Seq<char>) -> int {
    dispatch_from(plan, method, 0)
}

/// The values gathered in an accumulating slot.
pub open spec fn gathered_of(s: SlotModel) -> Seq<Seq<char>> {
    match s {
        SlotModel::GatheredSlot(g) => g,
        SlotModel::PendingSlot(_) => Seq::empty(),
    }
}

/// The optional value held in a pending slot.
pub open spec fn pending_of(s: SlotModel) -> Option<Seq<char>> {
    match s {
        SlotModel::PendingSlot(o) => o,
        SlotModel::GatheredSlot(_) => Option::None,
    }
}

/// One mutator call's effect on its slot: a setter overwrites, an
/// accumulator appends.
pub open spec fn slot_after_apply(rule: ExtractRule, s: SlotModel, v: Seq<char>) -> SlotModel {
    match rule {
        ExtractRule::TakeRequired => SlotModel::PendingSlot(Option::Some(v)),
        ExtractRule::TakeOptional => SlotModel::PendingSlot(Option::Some(v)),
        ExtractRule::SnapshotSequence => SlotModel::GatheredSlot(gathered_of(s).push(v)),
    }
}

/// One mutator call's effect on the instance: the first field whose method
/// bears the name receives the value; a name no method bears changes
/// nothing.
pub open spec fn apply_model(m: InstanceModel, method: Seq<char>, v: Seq<char>) -> InstanceModel {
    let i = dispatch(m.plan, method);
    if i == m.plan.len() {
        m
    } else {
        InstanceModel {
            plan: m.plan,
            state: m.state.update(i, slot_after_apply(m.plan[i].rule, m.state[i], v)),
        }
    }
}

/// One mutator call: a method name and the value handed to it.
pub ghost struct CallModel {
    pub method: Seq<char>,
    pub value: Seq<char>,
}

/// The effect of a sequence of mutator calls, first call first.
pub open spec fn run_calls(m: InstanceModel, calls: Seq<CallModel>) -> InstanceModel
    decreases calls.len(),
{
    if calls.len() == 0 {
        m
    } else {
        run_calls(apply_model(m, calls[0].method, calls[0].value), calls.drop_first())
    }
}

/// Whether finalizing must fail at field `i`: the field is required and its
/// slot holds nothing.
pub open spec fn required_missing(m: InstanceModel, i: int) -> bool {
    m.plan[i].rule is TakeRequired && pending_of(m.state[i]) is None
}

/// The first index at or after `i` at which finalizing must fail, or the
/// length when none.
pub open spec fn first_missing_from(m: InstanceModel, i: int) -> int
    recommends
        0 <= i <= m.plan.len(),
    decreases m.plan.len() - i,
{
    if i < 0 || i >= m.plan.len() {
        m.plan.len() as int
    } else if required_missing(m, i) {
        i
    } else {
        first_missing_from(m, i + 1)
    }
}

/// The first required field whose slot holds nothing, in declaration order,
/// or the length when every required field is set.
pub open spec fn first_missing(m: InstanceModel) -> int {
    first_missing_from(m, 0)
}

/// Whether finalizing succeeds: every required field is set.
pub open spec fn build_succeeds(m: InstanceModel) -> bool {
    first_missing(m) == m.plan.len()
}

/// The model of one finalized field value.
pub ghost enum FieldValueModel {
    SingleValue(Seq<char>),
    OptionalValue(Option<Seq<char>>),
    SequenceValue(Seq<Seq<char>>),
}

/// What finalizing extracts from one slot.
pub open spec fn extracted_value(rule: ExtractRule, s: SlotModel) -> FieldValueModel {
    match rule {
        ExtractRule::TakeRequired => FieldValueModel::SingleValue(
            match pending_of(s) {
                Option::Some(v) => v,
                Option::None => Seq::empty(),
            },
        ),
        ExtractRule::TakeOptional => FieldValueModel::OptionalValue(pending_of(s)),
        ExtractRule::SnapshotSequence => FieldValueModel::SequenceValue(gathered_of(s)),
    }
}

/// The fully populated record that a successful finalize yields, one value
/// per field in declaration order.
pub open spec fn built_record(m: InstanceModel) -> Seq<FieldValueModel> {
    Seq::new(m.plan.len(), |i: int| extracted_value(m.plan[i].rule, m.state[i]))
}

/// The slot states after finalizing: every required or optional slot up to
/// the failure point (or all of them, on success) is cleared; accumulating
/// slots are never touched.
pub open spec fn state_after_build(m: InstanceModel) -> Seq<SlotModel> {
    let k = first_missing(m);
    Seq::new(
        m.state.len(),
        |i: int|
            if m.plan[i].rule is SnapshotSequence || i > k {
                m.state[i]
            } else {
                SlotModel::PendingSlot(Option::None)
            },
    )
}

/// One finalized field value.
#[derive(Debug, PartialEq, Eq)]
pub enum FieldValue {
    /// The value of a required field.
    Single(String),
    /// The value of an optional field; absent when never supplied.
    OptionalValue(Option<String>),
    /// The accumulated values of an accumulating field, in call order.
    Sequence(Vec<String>),
}

impl View for FieldValue {
    type V = FieldValueModel;

    open spec fn view(&self) -> FieldValueModel {
        match self {
            FieldValue::Single(s) => FieldValueModel::SingleValue(s@),
            FieldValue::OptionalValue(o) => FieldValueModel::OptionalValue(
                match o {
                    Option::Some(s) => Option::Some(s@),
                    Option::None => Option::None,
                },
            ),
            FieldValue::Sequence(v) => FieldValueModel::SequenceValue(values_view(v@)),
        }
    }
}

/// A fully populated record: one value per field, in declaration order.
#[derive(Debug, PartialEq, Eq)]
pub struct RecordValue {
    pub fields: Vec<FieldValue>,
}

impl View for RecordValue {
    type V = Seq<FieldValueModel>;

    open spec fn view(&self) -> Seq<FieldValueModel> {
        Seq::new(self.fields@.len(), |i: int| self.fields@[i]@)
    }
}

/// Failure of the finalize operation.
#[derive(Debug, PartialEq, Eq)]
pub enum BuildError {
    /// The named required field was never supplied.
    MissingRequiredField(String),
}

/// The descriptive message of a missing-field failure: it names the field
/// once as the missing value and once as the setter method to call.
pub open spec fn missing_message(name: Seq<char>) -> Seq<char> {
    name + " is not set; call the method "@ + name + " to supply it."@
}

impl BuildError {
    /// Renders the failure as a human-readable message.
    pub fn message(&self) -> (m: String)
        ensures
            (match self {
                BuildError::MissingRequiredField(n) => m@ == missing_message(n@),
            }),
    {
        match self {
            BuildError::MissingRequiredField(n) => {
                let mut m = n.clone();
                m.append(" is not set; call the method ");
                m.append(n.as_str());
                m.append(" to supply it.");
                m
            },
        }
    }
}

/// The per-field plan a declaration bundle prescribes.
pub open spec fn plan_of(desc: BuilderDescription) -> Seq<FieldModel> {
    Seq::new(
        desc.slots@.len(),
        |i: int|
            FieldModel {
                field_name: desc.slots@[i].name@,
                method_name: desc.methods@[i].name@,
                rule: desc.extracts@[i],
            },
    )
}

/// The state every slot starts in: absent for required and optional fields,
/// present but empty for accumulating fields.
pub open spec fn fresh_state(plan: Seq<FieldModel>) -> Seq<SlotModel> {
    Seq::new(
        plan.len(),
        |i: int|
            if plan[i].rule is SnapshotSequence {
                SlotModel::GatheredSlot(Seq::empty())
            } else {
                SlotModel::PendingSlot(Option::None)
            },
    )
}

/// A builder instance: a declaration bundle together with the dynamic state
/// of its storage slots.
pub struct BuilderInstance {
    pub desc: BuilderDescription,
    pub state: Vec<SlotState>,
}

impl View for BuilderInstance {
    type V = InstanceModel;

    open spec fn view(&self) -> InstanceModel {
        InstanceModel {
            plan: plan_of(self.desc),
            state: Seq::new(self.state@.len(), |i: int| self.state@[i]@),
        }
    }
}

impl BuilderInstance {
    /// Well-formedness: the bundle is well-formed and each slot's state has
    /// the shape its rules prescribe.
    pub open spec fn wf(&self) -> bool {
        &&& desc_wf(self.desc)
        &&& self.state@.len() == self.desc.slots@.len()
        &&& wf_model(self@)
    }
}

/// Duplicates a sequence of values exactly.
fn clone_values(v: &Vec<String>) -> (r: Vec<String>)
    ensures
        r@ == v@,
{
    let mut r: Vec<String> = Vec::new();
    let n = v.len();
    let mut i: usize = 0;
    while i < n
        invariant
            n == v@.len(),
            i <= n,
            r@ == v@.subrange(0, i as int),
        decreases n - i,
    {
        r.push(v[i].clone());
        proof {
            assert(r@ =~= v@.subrange(0, i + 1 as int));
        }
        i += 1;
    }
    proof {
        assert(r@ =~= v@);
    }
    r
}

/// Skipping methods that do not bear the name does not move the dispatch
/// target.
proof fn lemma_dispatch_skip(plan: Seq<FieldModel>, method: Seq<char>, i: int)
    requires
        0 <= i <= plan.len(),
        forall|j: int| 0 <= j < i ==> (#[trigger] plan[j]).method_name != method,
    ensures
        dispatch(plan, method) == dispatch_from(plan, method, i),
    decreases i,
{
    if i > 0 {
        lemma_dispatch_skip(plan, method, i - 1);
    }
}

/// Skipping fields at which finalizing need not fail does not move the
/// failure point.
proof fn lemma_first_missing_skip(m: InstanceModel, i: int)
    requires
        0 <= i <= m.plan.len(),
        forall|j: int| 0 <= j < i ==> !required_missing(m, j),
    ensures
        first_missing(m) == first_missing_from(m, i),
    decreases i,
{
    if i > 0 {
        lemma_first_missing_skip(m, i - 1);
    }
}

impl BuilderInstance {
    /// The factory operation: a fresh instance of the builder a bundle
    /// describes, with every slot at its empty default.
    pub fn instantiate(desc: BuilderDescription) -> (b: BuilderInstance)
        requires
            desc_wf(desc),
        ensures
            b.wf(),
            b@.plan == plan_of(desc),
            b@.state == fresh_state(plan_of(desc)),
            b.desc == desc,
    {
        let n = desc.extracts.len();
        let mut state: Vec<SlotState> = Vec::new();
        let mut i: usize = 0;
        #[verifier::loop_isolation(false)]
        while i < n
            invariant
                i <= n,
                state@.len() == i as int,
                forall|j: int| 0 <= j < i ==> #[trigger] state@[j]@ == fresh_state(plan_of(desc))[j],
            decreases n - i,
        {
            match desc.extracts[i] {
                ExtractRule::SnapshotSequence => {
                    state.push(SlotState::Gathered(Vec::new()));
                    proof {
                        assert(values_view(Seq::<String>::empty()) =~= Seq::<Seq<char>>::empty());
                    }
                },
                ExtractRule::TakeRequired => {
                    state.push(SlotState::Pending(Option::None));
                },
                ExtractRule::TakeOptional => {
                    state.push(SlotState::Pending(Option::None));
                },
            }
            i += 1;
        }
        let b = BuilderInstance { desc, state };
        proof {
            assert(b@.state =~= fresh_state(plan_of(b.desc)));
        }
        b
    }

    /// Applies the mutator method of the given name: the slot of the first
    /// field whose method bears the name is overwritten by a setter or
    /// appended to by an accumulator, and the result says whether any
    /// method bears the name.  The generator does not guard against two
    /// fields generating methods of one name; here the earliest field's
    /// method wins.
    pub fn apply(&mut self, method: &String, value: String) -> (found: bool)
        requires
            old(self).wf(),
        ensures
            final(self).wf(),
            final(self)@ == apply_model(old(self)@, method@, value@),
            found == (dispatch(old(self)@.plan, method@) < old(self)@.plan.len()),
    {
        let ghost m0 = self@;
        let n = self.desc.methods.len();
        let mut i: usize = 0;
        #[verifier::loop_isolation(false)]
        while i < n
            invariant
                i <= n,
                *self == *old(self),
                forall|j: int| 0 <= j < i ==> (#[trigger] m0.plan[j]).method_name != method@,
            decreases n - i,
        {
            if *method == self.desc.methods[i].name {
                proof {
                    lemma_dispatch_skip(m0.plan, method@, i as int);
                    assert(kinds_agree(
                        self.desc.slots@[i as int],
                        self.desc.methods@[i as int],
                        self.desc.extracts@[i as int],
                    ));
                    assert(state_matches(m0.plan[i as int].rule, m0.state[i as int]));
                }
                let ghost vv = value@;
                match self.desc.methods[i].kind {
                    MethodKind::Overwrite => {
                        self.state.set(i, SlotState::Pending(Option::Some(value)));
                    },
                    MethodKind::Append => {
                        let appended = match &self.state[i] {
                            SlotState::Gathered(g) => {
                                let ghost gv = g@;
                                let mut g2 = clone_values(g);
                                g2.push(value);
                                proof {
                                    assert(values_view(g2@) =~= values_view(gv).push(vv));
                                }
                                SlotState::Gathered(g2)
                            },
                            SlotState::Pending(_) => unreached(),
                        };
                        self.state.set(i, appended);
                    },
                }
                proof {
                    assert(self@.state =~= apply_model(m0, method@, vv).state);
                }
                return true;
            }
            i += 1;
        }
        proof {
            lemma_dispatch_skip(m0.plan, method@, n as int);
        }
        false
    }

    /// The finalize operation.  It walks the fields in declaration order:
    /// a required slot is drained and an absent value fails with the
    /// field's name at once (slots already walked stay drained); an
    /// optional slot is drained, absent staying absent; an accumulating
    /// slot's sequence is duplicated and left untouched.  On success the
    /// record holds, per field, exactly what its slot held.
    pub fn build(&mut self) -> (r: Result<RecordValue, BuildError>)
        requires
            old(self).wf(),
        ensures
            final(self).wf(),
            final(self)@.plan == old(self)@.plan,
            final(self)@.state == state_after_build(old(self)@),
            match r {
                Result::Ok(rec) => {
                    &&& build_succeeds(old(self)@)
                    &&& rec@ == built_record(old(self)@)
                },
                Result::Err(e) => {
                    &&& !build_succeeds(old(self)@)
                    &&& (match e {
                        BuildError::MissingRequiredField(n) => n@ == old(self)@.plan[first_missing(
                            old(self)@,
                        )].field_name,
                    })
                },
            },
    {
        let ghost m0 = self@;
        let n = self.desc.extracts.len();
        let mut out: Vec<FieldValue> = Vec::new();
        let mut i: usize = 0;
        #[verifier::loop_isolation(false)]
        while i < n
            invariant
                i <= n,
                self.desc == old(self).desc,
                self.state@.len() == n as int,
                out@.len() == i as int,
                forall|j: int| 0 <= j < i ==> !required_missing(m0, j),
                forall|j: int|
                    0 <= j < i ==> #[trigger] out@[j]@ == extracted_value(
                        m0.plan[j].rule,
                        m0.state[j],
                    ),
                forall|j: int|
                    0 <= j < i ==> #[trigger] self.state@[j]@ == (if m0.plan[j].rule
                        is SnapshotSequence {
                        m0.state[j]
                    } else {
                        SlotModel::PendingSlot(Option::None)
                    }),
                forall|j: int| i <= j < n ==> #[trigger] self.state@[j] == old(self).state@[j],
            decreases n - i,
        {
            proof {
                assert(state_matches(m0.plan[i as int].rule, m0.state[i as int]));
            }
            match self.desc.extracts[i] {
                ExtractRule::TakeRequired => {
                    let taken = match &self.state[i] {
                        SlotState::Pending(o) => match o {
                            Option::Some(s) => Option::Some(s.clone()),
                            Option::None => Option::None,
                        },
                        SlotState::Gathered(_) => unreached(),
                    };
                    self.state.set(i, SlotState::Pending(Option::None));
                    match taken {
                        Option::Some(v) => {
                            out.push(FieldValue::Single(v));
                        },
                        Option::None => {
                            proof {
                                lemma_first_missing_skip(m0, i as int);
                                assert(self@.state =~= state_after_build(m0));
                            }
                            let name = self.desc.slots[i].name.clone();
                            return Err(BuildError::MissingRequiredField(name));
                        },
                    }
                },
                ExtractRule::TakeOptional => {
                    let taken = match &self.state[i] {
                        SlotState::Pending(o) => match o {
                            Option::Some(s) => Option::Some(s.clone()),
                            Option::None => Option::None,
                        },
                        SlotState::Gathered(_) => unreached(),
                    };
                    self.state.set(i, SlotState::Pending(Option::None));
                    out.push(FieldValue::OptionalValue(taken));
                },
                ExtractRule::SnapshotSequence => {
                    let snapshot = match &self.state[i] {
                        SlotState::Gathered(g) => clone_values(g),
                        SlotState::Pending(_) => unreached(),
                    };
                    out.push(FieldValue::Sequence(snapshot));
                },
            }
            i += 1;
        }
        proof {
            lemma_first_missing_skip(m0, n as int);
            assert(self@.state =~= state_after_build(m0));
        }
        let rec = RecordValue { fields: out };
        proof {
            assert(rec@ =~= built_record(m0));
        }
        Ok(rec)
    }
}

} // verus!
