//! Rule configurations and the processor that applies them.

use crate::builtinrules::{builtin_catalog, builtin_rules};
use crate::chunk::{Chunk, ChunkView};
use crate::meta::{Annotated, Meta, MetaView};
use crate::pattern::Detectors;
use crate::processor::{
    chunks_result_view, process_value, tree_outcome, ChunksView, PiiKind, PiiProcessor, ValueInfo,
};
use crate::rule::{value_result_view, Rule, RuleSpec, RuleSpecView, RuleTypeView, RuleView};
use crate::rule::RuleType;
use crate::text::same_text;
use crate::value::{lemma_node_view, node_view, AnnotatedView, Value, ValueView};
use vstd::prelude::*;
use vstd::string::*;

verus! {

/// Indicates that the rule config was invalid after parsing.
#[derive(Debug, PartialEq, Eq)]
pub enum BadRuleConfig {
    /// An invalid reference to a rule was found in the config.
    BadReference(String),
    /// A rule that hashes is applied without a key to hash with.
    MissingHashKey(String),
}

/// The mathematical content of a [`BadRuleConfig`].
pub enum BadRuleConfigView {
    BadReference(Seq<char>),
    MissingHashKey(Seq<char>),
}

impl View for BadRuleConfig {
    type V = BadRuleConfigView;

    open spec fn view(&self) -> BadRuleConfigView {
        match self {
            BadRuleConfig::BadReference(id) => BadRuleConfigView::BadReference(id@),
            BadRuleConfig::MissingHashKey(id) => BadRuleConfigView::MissingHashKey(id@),
        }
    }
}

impl BadRuleConfig {
    /// The error in words.
    pub fn message(&self) -> (r: String)
        ensures
            r@ == (match self@ {
                BadRuleConfigView::BadReference(id) => "invalid rule reference ("@ + id + ")"@,
                BadRuleConfigView::MissingHashKey(id) => "no hash key for rule ("@ + id + ")"@,
            }),
    {
        let (head, id) = match self {
            BadRuleConfig::BadReference(id) => ("invalid rule reference (", id),
            BadRuleConfig::MissingHashKey(id) => ("no hash key for rule (", id),
        };
        let mut out = head.to_owned();
        out.append(id.as_str());
        out.append(")");
        out
    }
}

/// A table of rules under their ids.
pub type RuleTable = Seq<(Seq<char>, RuleSpecView)>;

/// The place of the first rule with the id `id` in `rules` at or after
/// `from`.
pub open spec fn position(rules: RuleTable, id: Seq<char>, from: int) -> Option<int>
    decreases rules.len() - from,
{
    if from < 0 || from >= rules.len() {
        None
    } else if rules[from].0 == id {
        Some(from)
    } else {
        position(rules, id, from + 1)
    }
}

/// The table with `spec` under `id`: in the place of the rule that had the id
/// before, or at the end.
pub open spec fn with_rule(rules: RuleTable, id: Seq<char>, spec: RuleSpecView) -> RuleTable {
    match position(rules, id, 0) {
        Some(i) => rules.update(i, (id, spec)),
        None => rules.push((id, spec)),
    }
}

/// The applications of a configuration: kinds with the ids of their rules.
pub type Applications = Seq<(PiiKind, Seq<Seq<char>>)>;

/// The place of the first application for `kind` at or after `from`.
pub open spec fn application_position(applications: Applications, kind: PiiKind, from: int)
    -> Option<int>
    decreases applications.len() - from,
{
    if from < 0 || from >= applications.len() {
        None
    } else if applications[from].0 == kind {
        Some(from)
    } else {
        application_position(applications, kind, from + 1)
    }
}

/// The ids of the rules that are applied to `kind`, in order.
pub open spec fn ids_for(applications: Applications, kind: PiiKind) -> Seq<Seq<char>> {
    match application_position(applications, kind, 0) {
        Some(i) => applications[i].1,
        None => Seq::empty(),
    }
}

/// The applications with `ids` for `kind`: in the place of the application
/// that the kind had before, or at the end.
pub open spec fn with_application(applications: Applications, kind: PiiKind, ids: Seq<Seq<char>>)
    -> Applications {
    match application_position(applications, kind, 0) {
        Some(i) => applications.update(i, (kind, ids)),
        None => applications.push((kind, ids)),
    }
}

/// The mathematical content of a [`RuleConfig`].
pub struct RuleConfigView {
    pub rules: RuleTable,
    pub applications: Applications,
}

/// A set of named rule configurations.
#[derive(Debug)]
pub struct RuleConfig {
    rules: Vec<(String, RuleSpec)>,
    applications: Vec<(PiiKind, Vec<String>)>,
}

impl View for RuleConfig {
    type V = RuleConfigView;

    closed spec fn view(&self) -> RuleConfigView {
        RuleConfigView {
            rules: self.rules.deep_view(),
            applications: self.applications.deep_view(),
        }
    }
}

fn find_rule(rules: &Vec<(String, RuleSpec)>, id: &str) -> (r: Option<usize>)
    ensures
        r is Some <==> position(rules.deep_view(), id@, 0) is Some,
        r matches Some(i) ==> i < rules.len() && position(rules.deep_view(), id@, 0) == Some(
            i as int,
        ),
{
    let mut i: usize = 0;
    while i < rules.len()
        invariant
            i <= rules.len(),
            position(rules.deep_view(), id@, 0) == position(rules.deep_view(), id@, i as int),
        decreases rules.len() - i,
    {
        assert(rules.deep_view()[i as int].0 == rules[i as int].0@);
        if same_text(rules[i].0.as_str(), id) {
            return Some(i);
        }
        i += 1;
    }
    None
}

fn find_application(applications: &Vec<(PiiKind, Vec<String>)>, kind: PiiKind) -> (r: Option<
    usize,
>)
    ensures
        r is Some <==> application_position(applications.deep_view(), kind, 0) is Some,
        r matches Some(i) ==> i < applications.len() && application_position(
            applications.deep_view(),
            kind,
            0,
        ) == Some(i as int),
{
    let mut i: usize = 0;
    while i < applications.len()
        invariant
            i <= applications.len(),
            application_position(applications.deep_view(), kind, 0) == application_position(
                applications.deep_view(),
                kind,
                i as int,
            ),
        decreases applications.len() - i,
    {
        assert(applications.deep_view()[i as int].0 == applications[i as int].0);
        if applications[i].0 == kind {
            return Some(i);
        }
        i += 1;
    }
    None
}

impl RuleConfig {
    /// A configuration without rules and applications.
    pub fn new() -> (r: RuleConfig)
        ensures
            r@ == (RuleConfigView { rules: Seq::empty(), applications: Seq::empty() }),
    {
        let r = RuleConfig { rules: Vec::new(), applications: Vec::new() };
        assert(r.rules.deep_view() =~= Seq::empty());
        assert(r.applications.deep_view() =~= Seq::empty());
        r
    }

    /// Puts the rule `spec` under `id`, in place of a rule that had the id.
    pub fn add_rule(&mut self, id: &str, spec: RuleSpec)
        ensures
            final(self)@ == (RuleConfigView {
                rules: with_rule(old(self)@.rules, id@, spec@),
                ..old(self)@
            }),
    {
        let ghost before = self.rules.deep_view();
        match find_rule(&self.rules, id) {
            Some(i) => {
                self.rules.set(i, (id.to_owned(), spec));
                assert(self.rules.deep_view() =~= before.update(i as int, (id@, spec@)));
            },
            None => {
                self.rules.push((id.to_owned(), spec));
                assert(self.rules.deep_view() =~= before.push((id@, spec@)));
            },
        }
    }

    /// Applies the rules with the ids `rule_ids`, in this order, to `kind`,
    /// in place of what was applied to the kind before.
    pub fn add_application(&mut self, kind: PiiKind, rule_ids: Vec<String>)
        ensures
            final(self)@ == (RuleConfigView {
                applications: with_application(
                    old(self)@.applications,
                    kind,
                    rule_ids.deep_view(),
                ),
                ..old(self)@
            }),
    {
        let ghost before = self.applications.deep_view();
        let ghost ids = rule_ids.deep_view();
        match find_application(&self.applications, kind) {
            Some(i) => {
                self.applications.set(i, (kind, rule_ids));
                assert(self.applications.deep_view() =~= before.update(i as int, (kind, ids)));
            },
            None => {
                self.applications.push((kind, rule_ids));
                assert(self.applications.deep_view() =~= before.push((kind, ids)));
            },
        }
    }

    /// The rule under `id`, if the configuration has one.
    pub fn rule(&self, id: &str) -> (r: Option<&RuleSpec>)
        ensures
            r is Some <==> position(self@.rules, id@, 0) is Some,
            r matches Some(spec) ==> spec@ == self@.rules[position(self@.rules, id@, 0)->0].1,
    {
        match find_rule(&self.rules, id) {
            Some(i) => {
                assert(self.rules.deep_view()[i as int].1 == self.rules[i as int].1@);
                Some(&self.rules[i].1)
            },
            None => None,
        }
    }
}

/// A rule that an application resolved to: the id under which remarks name
/// it, and where its configuration stands.
#[derive(Debug)]
pub struct RuleRef {
    id: String,
    builtin: bool,
    index: usize,
}

/// The mathematical content of a [`RuleRef`].
pub struct RuleRefView {
    pub id: Seq<char>,
    pub builtin: bool,
    pub index: int,
}

impl View for RuleRef {
    type V = RuleRefView;

    closed spec fn view(&self) -> RuleRefView {
        RuleRefView { id: self.id@, builtin: self.builtin, index: self.index as int }
    }
}

impl DeepView for RuleRef {
    type V = RuleRefView;

    open spec fn deep_view(&self) -> RuleRefView {
        self@
    }
}

impl RuleRefView {
    /// Whether the place lies in the table it names.
    pub open spec fn in_bounds(self, rules: RuleTable) -> bool {
        0 <= self.index < (if self.builtin {
            builtin_catalog().len()
        } else {
            rules.len()
        })
    }

    /// The configuration of the rule.
    pub open spec fn spec(self, rules: RuleTable) -> RuleSpecView {
        if self.builtin {
            builtin_catalog()[self.index].1
        } else {
            rules[self.index].1
        }
    }

    /// The rule as it is applied.
    pub open spec fn rule(self, rules: RuleTable) -> RuleView {
        RuleView { id: self.id, spec: self.spec(rules) }
    }
}

/// Where the rule with the id `id` stands: among the rules of the
/// configuration, or else in the catalog.
pub open spec fn located(rules: RuleTable, id: Seq<char>) -> Option<RuleRefView> {
    match position(rules, id, 0) {
        Some(index) => Some(RuleRefView { id, builtin: false, index }),
        None => match position(builtin_catalog(), id, 0) {
            Some(index) => Some(RuleRefView { id, builtin: true, index }),
            None => None,
        },
    }
}

/// The rule that `id` stands for, following at most `steps` aliases.
///
/// Remarks name the rule by its own id, or by the id of the first alias on
/// the way that hides what it stands for.
pub open spec fn resolve(rules: RuleTable, id: Seq<char>, steps: nat) -> Option<RuleRefView>
    decreases steps,
{
    match located(rules, id) {
        None => None,
        Some(found) => match found.spec(rules).ty {
            RuleTypeView::Alias { rule, hide_rule } => if steps == 0 {
                None
            } else {
                match resolve(rules, rule, (steps - 1) as nat) {
                    Some(target) => Some(
                        if hide_rule {
                            RuleRefView { id, ..target }
                        } else {
                            target
                        },
                    ),
                    None => None,
                }
            },
            _ => Some(found),
        },
    }
}

/// The number of aliases after which an id that is not resolved never will
/// be: a longer chain of aliases comes back to one of its ids.
pub open spec fn alias_bound(rules: RuleTable) -> nat {
    rules.len() + builtin_catalog().len()
}

/// The rule that an application id stands for, or the reason why the
/// configuration cannot be used.
pub open spec fn checked(rules: RuleTable, id: Seq<char>) -> Result<RuleRefView, BadRuleConfigView> {
    match resolve(rules, id, alias_bound(rules)) {
        None => Err(BadRuleConfigView::BadReference(id)),
        Some(found) => if found.spec(rules).redaction.lacks_key() {
            Err(BadRuleConfigView::MissingHashKey(id))
        } else {
            Ok(found)
        },
    }
}

/// The rules that a list of application ids stands for, or the error of the
/// first id that has one.
pub open spec fn checked_list(rules: RuleTable, ids: Seq<Seq<char>>) -> Result<
    Seq<RuleRefView>,
    BadRuleConfigView,
>
    decreases ids.len(),
{
    if ids.len() == 0 {
        Ok(Seq::empty())
    } else {
        match checked_list(rules, ids.drop_last()) {
            Err(error) => Err(error),
            Ok(list) => match checked(rules, ids.last()) {
                Ok(found) => Ok(list.push(found)),
                Err(error) => Err(error),
            },
        }
    }
}

/// The rules of the first `count` kinds, or the error of the first kind, in
/// the order of the kinds, that has one.
pub open spec fn built_upto(cfg: RuleConfigView, count: int) -> Result<
    Seq<Seq<RuleRefView>>,
    BadRuleConfigView,
>
    decreases count,
{
    if count <= 0 {
        Ok(Seq::empty())
    } else {
        match built_upto(cfg, count - 1) {
            Err(error) => Err(error),
            Ok(done) => match checked_list(
                cfg.rules,
                ids_for(cfg.applications, PiiKind::at(count - 1)),
            ) {
                Ok(list) => Ok(done.push(list)),
                Err(error) => Err(error),
            },
        }
    }
}

/// The rules of every kind, in the order of the kinds, or the error of the
/// configuration.
pub open spec fn built(cfg: RuleConfigView) -> Result<Seq<Seq<RuleRefView>>, BadRuleConfigView> {
    built_upto(cfg, 8)
}

proof fn lemma_position(rules: RuleTable, id: Seq<char>, from: int)
    requires
        0 <= from,
    ensures
        position(rules, id, from) matches Some(i) ==> from <= i < rules.len() && rules[i].0 == id,
    decreases rules.len() - from,
{
    if from < rules.len() && rules[from].0 != id {
        lemma_position(rules, id, from + 1);
    }
}

/// A resolved rule stands in its table and is no alias.
pub proof fn lemma_resolved(rules: RuleTable, id: Seq<char>, steps: nat)
    ensures
        resolve(rules, id, steps) matches Some(found) ==> found.in_bounds(rules) && !(found.spec(
            rules,
        ).ty is Alias),
    decreases steps,
{
    lemma_position(rules, id, 0);
    lemma_position(builtin_catalog(), id, 0);
    match located(rules, id) {
        None => {},
        Some(found) => match found.spec(rules).ty {
            RuleTypeView::Alias { rule, hide_rule } => {
                if steps > 0 {
                    lemma_resolved(rules, rule, (steps - 1) as nat);
                }
            },
            _ => {},
        },
    }
}

fn resolve_rule(
    rules: &Vec<(String, RuleSpec)>,
    builtin: &Vec<(String, RuleSpec)>,
    id: &str,
    steps: u128,
) -> (r: Option<RuleRef>)
    requires
        builtin.deep_view() == builtin_catalog(),
    ensures
        r.deep_view() == resolve(rules.deep_view(), id@, steps as nat),
    decreases steps,
{
    let ghost table = rules.deep_view();
    let (spec, found) = match find_rule(rules, id) {
        Some(index) => {
            assert(table[index as int].1 == rules[index as int].1@);
            (&rules[index].1, RuleRef { id: id.to_owned(), builtin: false, index })
        },
        None => match find_rule(builtin, id) {
            Some(index) => {
                assert(builtin.deep_view()[index as int].1 == builtin[index as int].1@);
                (&builtin[index].1, RuleRef { id: id.to_owned(), builtin: true, index })
            },
            None => {
                return None;
            },
        },
    };
    assert(located(table, id@) == Some(found@));
    assert(spec@ == found@.spec(table));
    match &spec.ty {
        RuleType::Alias { rule, hide_rule } => {
            if steps == 0 {
                None
            } else {
                match resolve_rule(rules, builtin, rule.as_str(), steps - 1) {
                    Some(target) => Some(
                        if *hide_rule {
                            RuleRef { id: found.id, builtin: target.builtin, index: target.index }
                        } else {
                            target
                        },
                    ),
                    None => None,
                }
            }
        },
        _ => Some(found),
    }
}

/// The mathematical content of a [`RuleBasedPiiProcessor`].
pub struct ProcessorView {
    pub cfg: RuleConfigView,
    pub applications: Seq<Seq<RuleRefView>>,
}

impl ProcessorView {
    /// Whether every kind has its list of rules and every rule stands in its
    /// table.
    pub open spec fn well_formed(self) -> bool {
        &&& self.applications.len() == 8
        &&& forall|k: int, j: int|
            0 <= k < 8 && 0 <= j < self.applications[k].len() ==> (
            #[trigger] self.applications[k][j]).in_bounds(self.cfg.rules)
    }

    /// What the rules `rules` make, one after the other, of the chunks of a
    /// string. The result is `Ok` where one of them rewrote the chunks, or
    /// `replaced` says that an earlier one did.
    pub open spec fn chunks_fold(
        self,
        rules: Seq<RuleRefView>,
        chunks: Seq<ChunkView>,
        meta: MetaView,
        replaced: bool,
    ) -> Result<ChunksView, ChunksView>
        decreases rules.len(),
    {
        if rules.len() == 0 {
            if replaced {
                Ok((chunks, meta))
            } else {
                Err((chunks, meta))
            }
        } else {
            match rules[0].rule(self.cfg.rules).chunks_outcome(chunks, meta) {
                Ok((chunks, meta)) => self.chunks_fold(rules.drop_first(), chunks, meta, true),
                Err((chunks, meta)) => self.chunks_fold(
                    rules.drop_first(),
                    chunks,
                    meta,
                    replaced,
                ),
            }
        }
    }

    /// What the rules `rules` make of a value: the result of the first that
    /// does not decline, or the value as it is.
    pub open spec fn value_fold(self, rules: Seq<RuleRefView>, node: AnnotatedView<ValueView>)
        -> AnnotatedView<ValueView>
        decreases rules.len(),
    {
        if rules.len() == 0 {
            node
        } else {
            match rules[0].rule(self.cfg.rules).value_outcome(node) {
                Ok(done) => done,
                Err(node) => self.value_fold(rules.drop_first(), node),
            }
        }
    }
}

/// A PII processor that uses JSON rules.
#[derive(Debug)]
pub struct RuleBasedPiiProcessor<'a> {
    cfg: &'a RuleConfig,
    detectors: &'a Detectors,
    builtin: Vec<(String, RuleSpec)>,
    applications: Vec<Vec<RuleRef>>,
}

impl<'a> View for RuleBasedPiiProcessor<'a> {
    type V = ProcessorView;

    closed spec fn view(&self) -> ProcessorView {
        ProcessorView { cfg: self.cfg@, applications: self.applications.deep_view() }
    }
}

impl<'a> RuleBasedPiiProcessor<'a> {
    #[verifier::type_invariant]
    spec fn sound(self) -> bool {
        &&& self.builtin.deep_view() == builtin_catalog()
        &&& self@.well_formed()
    }

    /// Creates a new rule based PII processor from a config.
    ///
    /// Every id of an application is resolved against the rules of the
    /// config and then against the catalog, through aliases. The first id,
    /// in the order of the kinds and then of the application, that does not
    /// resolve is reported as a bad reference; a rule that hashes without a
    /// key to hash with is reported too.
    pub fn new(cfg: &'a RuleConfig, detectors: &'a Detectors) -> (r: Result<
        RuleBasedPiiProcessor<'a>,
        BadRuleConfig,
    >)
        ensures
            match built(cfg@) {
                Ok(applications) => r is Ok && r->Ok_0@ == (ProcessorView { cfg: cfg@, applications }),
                Err(error) => r is Err && r->Err_0@ == error,
            },
    {
        let builtin = builtin_rules();
        let steps: u128 = cfg.rules.len() as u128 + builtin.len() as u128;
        let ghost table = cfg@.rules;
        let mut applications: Vec<Vec<RuleRef>> = Vec::new();
        let mut k: usize = 0;
        assert(applications.deep_view() =~= Seq::empty());
        while k < 8
            invariant
                k <= 8,
                table == cfg.rules.deep_view(),
                table == cfg@.rules,
                builtin.deep_view() == builtin_catalog(),
                steps == alias_bound(table),
                applications.len() == k,
                built_upto(cfg@, k as int) == Ok::<_, BadRuleConfigView>(
                    applications.deep_view(),
                ),
                forall|a: int, j: int|
                    0 <= a < k && 0 <= j < applications[a].len() ==> (
                    #[trigger] applications[a][j])@.in_bounds(table),
            decreases 8 - k,
        {
            let kind = PiiKind::from_ordinal(k);
            let mut rules: Vec<RuleRef> = Vec::new();
            let ghost done = applications.deep_view();
            let ghost ids = ids_for(cfg@.applications, kind);
            assert(rules.deep_view() =~= Seq::empty());
            match find_application(&cfg.applications, kind) {
                Some(place) => {
                    let listed = &cfg.applications[place].1;
                    assert(cfg.applications.deep_view()[place as int].1 == listed.deep_view());
                    let mut i: usize = 0;
                    while i < listed.len()
                        invariant
                            i <= listed.len(),
                            k < 8,
                            kind == PiiKind::at(k as int),
                            ids == ids_for(cfg@.applications, kind),
                            built_upto(cfg@, k as int) is Ok,
                            table == cfg@.rules,
                            ids == listed.deep_view(),
                            table == cfg.rules.deep_view(),
                            builtin.deep_view() == builtin_catalog(),
                            steps == alias_bound(table),
                            checked_list(table, ids.take(i as int)) == Ok::<
                                _,
                                BadRuleConfigView,
                            >(rules.deep_view()),
                            forall|j: int|
                                0 <= j < rules.len() ==> (#[trigger] rules[j])@.in_bounds(table),
                        decreases listed.len() - i,
                    {
                        let id = &listed[i];
                        let ghost so_far = rules.deep_view();
                        proof {
                            assert(ids.take(i + 1).drop_last() =~= ids.take(i as int));
                            assert(ids.take(i + 1).last() == id@);
                            lemma_resolved(table, id@, steps as nat);
                        }
                        match resolve_rule(&cfg.rules, &builtin, id.as_str(), steps) {
                            None => {
                                proof {
                                    lemma_failed_list(table, ids, i + 1);
                                    lemma_failed_build(cfg@, k + 1);
                                }
                                return Err(BadRuleConfig::BadReference(id.clone()));
                            },
                            Some(found) => {
                                let spec = if found.builtin {
                                    assert(builtin.deep_view()[found.index as int].1
                                        == builtin[found.index as int].1@);
                                    &builtin[found.index].1
                                } else {
                                    assert(table[found.index as int].1
                                        == cfg.rules[found.index as int].1@);
                                    &cfg.rules[found.index].1
                                };
                                let keyless = match &spec.redaction {
                                    crate::redaction::Redaction::Hash { key, .. } => key.is_none(),
                                    _ => false,
                                };
                                if keyless {
                                    proof {
                                        lemma_failed_list(table, ids, i + 1);
                                        lemma_failed_build(cfg@, k + 1);
                                    }
                                    return Err(BadRuleConfig::MissingHashKey(id.clone()));
                                }
                                rules.push(found);
                                assert(rules.deep_view() =~= so_far.push(found@));
                            },
                        }
                        i += 1;
                    }
                    assert(ids.take(i as int) =~= ids);
                },
                None => {},
            }
            applications.push(rules);
            assert(applications.deep_view() =~= done.push(rules.deep_view()));
            k += 1;
        }
        let r = RuleBasedPiiProcessor { cfg, detectors, builtin, applications };
        Ok(r)
    }

    /// Returns a reference to the config that created the processor.
    pub fn config(&self) -> (r: &RuleConfig)
        ensures
            r@ == self@.cfg,
    {
        self.cfg
    }

    /// Processes a root value (annotated event for instance)
    pub fn process_root_value(&self, value: Annotated<Value>) -> (r: Annotated<Value>)
        ensures
            node_view(r) == tree_outcome(
                self,
                node_view(value),
                ValueInfo { pii_kind: None, cap: None },
            ),
    {
        process_value(self, value, &ValueInfo::default())
    }

    fn rule_at(&self, kind: PiiKind, j: usize) -> (r: Rule<'_>)
        requires
            j < self@.applications[kind.index()].len(),
        ensures
            r@ == self@.applications[kind.index()][j as int].rule(self@.cfg.rules),
    {
        proof {
            use_type_invariant(self);
        }
        let found = &self.applications[kind.ordinal()][j];
        assert(self.applications.deep_view()[kind.index()][j as int] == found@);
        let spec = if found.builtin {
            assert(self.builtin.deep_view()[found.index as int].1
                == self.builtin[found.index as int].1@);
            &self.builtin[found.index].1
        } else {
            assert(self.cfg.rules.deep_view()[found.index as int].1
                == self.cfg.rules[found.index as int].1@);
            &self.cfg.rules[found.index].1
        };
        Rule { id: found.id.as_str(), spec }
    }
}

/// A list whose beginning has an error has the same error.
proof fn lemma_failed_list(rules: RuleTable, ids: Seq<Seq<char>>, count: int)
    requires
        0 <= count <= ids.len(),
        checked_list(rules, ids.take(count)) is Err,
    ensures
        checked_list(rules, ids) == checked_list(rules, ids.take(count)),
    decreases ids.len() - count,
{
    if count < ids.len() {
        assert(ids.take(count + 1).drop_last() =~= ids.take(count));
        lemma_failed_list(rules, ids, count + 1);
    } else {
        assert(ids.take(count) =~= ids);
    }
}

/// A configuration whose first kinds have an error has the same error.
proof fn lemma_failed_build(cfg: RuleConfigView, count: int)
    requires
        0 <= count <= 8,
        built_upto(cfg, count) is Err,
    ensures
        built(cfg) == built_upto(cfg, count),
    decreases 8 - count,
{
    if count < 8 {
        lemma_failed_build(cfg, count + 1);
    }
}

impl<'a> PiiProcessor for RuleBasedPiiProcessor<'a> {
    open spec fn well_formed(&self) -> bool {
        true
    }

    open spec fn chunks_outcome(&self, chunks: Seq<ChunkView>, meta: MetaView, kind: PiiKind)
        -> Result<ChunksView, ChunksView> {
        self@.chunks_fold(self@.applications[kind.index()], chunks, meta, false)
    }

    open spec fn value_outcome(&self, value: AnnotatedView<ValueView>, kind: PiiKind)
        -> AnnotatedView<ValueView> {
        self@.value_fold(self@.applications[kind.index()], value)
    }

    fn pii_process_chunks(&self, chunks: Vec<Chunk>, meta: Meta, pii_kind: PiiKind) -> (r: Result<
        (Vec<Chunk>, Meta),
        (Vec<Chunk>, Meta),
    >) {
        proof {
            use_type_invariant(self);
        }
        let mut replaced = false;
        let mut chunks = chunks;
        let mut meta = meta;
        let count = self.applications[pii_kind.ordinal()].len();
        let ghost rules = self@.applications[pii_kind.index()];
        let ghost goal = self@.chunks_fold(rules, chunks.deep_view(), meta@, false);
        let mut j: usize = 0;
        assert(rules.skip(0) =~= rules);
        while j < count
            invariant
                rules == self@.applications[pii_kind.index()],
                count == rules.len(),
                j <= count,
                goal == self@.chunks_fold(rules.skip(j as int), chunks.deep_view(), meta@, replaced),
            decreases count - j,
        {
            proof {
                assert(rules.skip(j as int)[0] == rules[j as int]);
                assert(rules.skip(j as int).drop_first() =~= rules.skip(j + 1));
            }
            let rule = self.rule_at(pii_kind, j);
            match rule.process_chunks(chunks, meta, self.detectors) {
                Ok((new_chunks, new_meta)) => {
                    replaced = true;
                    chunks = new_chunks;
                    meta = new_meta;
                },
                Err((old_chunks, old_meta)) => {
                    chunks = old_chunks;
                    meta = old_meta;
                },
            }
            j += 1;
        }
        if replaced {
            Ok((chunks, meta))
        } else {
            Err((chunks, meta))
        }
    }

    fn pii_process_value(&self, value: Annotated<Value>, kind: PiiKind) -> (r: Annotated<Value>) {
        proof {
            use_type_invariant(self);
        }
        let ghost given = value.deep_view();
        let mut current = value;
        let count = self.applications[kind.ordinal()].len();
        let ghost rules = self@.applications[kind.index()];
        let mut j: usize = 0;
        proof {
            lemma_node_view(current);
            assert(rules.skip(0) =~= rules);
        }
        while j < count
            invariant
                rules == self@.applications[kind.index()],
                count == rules.len(),
                j <= count,
                given == value.deep_view(),
                self.value_outcome(given, kind) == self@.value_fold(
                    rules.skip(j as int),
                    node_view(current),
                ),
            decreases count - j,
        {
            proof {
                assert(rules.skip(j as int)[0] == rules[j as int]);
                assert(rules.skip(j as int).drop_first() =~= rules.skip(j + 1));
            }
            let rule = self.rule_at(kind, j);
            match rule.process_value(current, kind) {
                Ok(done) => {
                    proof {
                        lemma_node_view(done);
                    }
                    return done;
                },
                Err(same) => {
                    current = same;
                },
            }
            j += 1;
        }
        proof {
            lemma_node_view(current);
        }
        current
    }
}

/// The id at place `i` of the application of the kind at place `k`.
pub open spec fn application_id(cfg: RuleConfigView, k: int, i: int) -> Seq<char> {
    ids_for(cfg.applications, PiiKind::at(k))[i]
}

/// Whether `k` and `i` are the place of an id in an application.
pub open spec fn applied(cfg: RuleConfigView, k: int, i: int) -> bool {
    0 <= k < 8 && 0 <= i < ids_for(cfg.applications, PiiKind::at(k)).len()
}

/// Whether the application id at the place `k`, `i` stands for no rule of
/// the configuration or the catalog, through aliases or without.
pub open spec fn unresolved(cfg: RuleConfigView, k: int, i: int) -> bool {
    applied(cfg, k, i) && resolve(cfg.rules, application_id(cfg, k, i), alias_bound(cfg.rules))
        is None
}

/// Whether the application id at the place `k`, `i` stands for a rule that
/// hashes without a key.
pub open spec fn keyless(cfg: RuleConfigView, k: int, i: int) -> bool {
    applied(cfg, k, i) && (resolve(
        cfg.rules,
        application_id(cfg, k, i),
        alias_bound(cfg.rules),
    ) matches Some(found) && found.spec(cfg.rules).redaction.lacks_key())
}

proof fn lemma_checked_list(rules: RuleTable, ids: Seq<Seq<char>>)
    ensures
        checked_list(rules, ids) is Ok <==> (forall|i: int|
            0 <= i < ids.len() ==> checked(rules, #[trigger] ids[i]) is Ok),
        checked_list(rules, ids) matches Ok(list) ==> list.len() == ids.len(),
    decreases ids.len(),
{
    if ids.len() > 0 {
        let head = ids.drop_last();
        lemma_checked_list(rules, head);
        if checked_list(rules, ids) is Ok {
            assert forall|i: int| 0 <= i < ids.len() implies checked(rules, #[trigger] ids[i])
                is Ok by {
                if i < head.len() {
                    assert(head[i] == ids[i]);
                }
            }
        } else if checked_list(rules, head) is Ok {
            assert(checked(rules, ids[ids.len() - 1]) is Err);
        } else {
            let i = choose|i: int| 0 <= i < head.len() && !(checked(rules, #[trigger] head[i]) is Ok);
            assert(head[i] == ids[i]);
        }
    }
}

proof fn lemma_built_upto(cfg: RuleConfigView, count: int)
    requires
        0 <= count <= 8,
    ensures
        built_upto(cfg, count) is Ok <==> (forall|k: int, i: int|
            0 <= k < count && #[trigger] applied(cfg, k, i) ==> checked(
                cfg.rules,
                application_id(cfg, k, i),
            ) is Ok),
    decreases count,
{
    if count > 0 {
        lemma_built_upto(cfg, count - 1);
        let ids = ids_for(cfg.applications, PiiKind::at(count - 1));
        lemma_checked_list(cfg.rules, ids);
        if built_upto(cfg, count) is Ok {
            assert forall|k: int, i: int| 0 <= k < count && #[trigger] applied(cfg, k, i) implies checked(
                cfg.rules,
                application_id(cfg, k, i),
            ) is Ok by {
                if k == count - 1 {
                    assert(checked(cfg.rules, ids[i]) is Ok);
                }
            }
        } else if built_upto(cfg, count - 1) is Ok {
            let i = choose|i: int| 0 <= i < ids.len() && !(checked(cfg.rules, #[trigger] ids[i]) is Ok);
            assert(applied(cfg, count - 1, i));
        } else {
            let (k, i) = choose|k: int, i: int|
                0 <= k < count - 1 && #[trigger] applied(cfg, k, i) && !(checked(
                    cfg.rules,
                    application_id(cfg, k, i),
                ) is Ok);
            assert(applied(cfg, k, i));
        }
    }
}

/// A processor can be made from a configuration exactly when every id of
/// every application stands for a rule that can be applied.
pub proof fn law_construction(cfg: RuleConfigView)
    ensures
        built(cfg) is Ok <==> (forall|k: int, i: int| #[trigger]
            applied(cfg, k, i) ==> checked(cfg.rules, application_id(cfg, k, i)) is Ok),
{
    lemma_built_upto(cfg, 8);
}

/// For a configuration that applies no rule that hashes without a key: no
/// processor can be made from it exactly when the id of some application
/// stands for no rule, neither in the configuration nor in the catalog,
/// through aliases or without.
pub proof fn law_bad_reference(cfg: RuleConfigView)
    requires
        forall|k: int, i: int| !#[trigger] keyless(cfg, k, i),
    ensures
        built(cfg) is Err <==> (exists|k: int, i: int| #[trigger] unresolved(cfg, k, i)),
{
    law_construction(cfg);
    if built(cfg) is Err {
        let (k, i) = choose|k: int, i: int| #[trigger]
            applied(cfg, k, i) && !(checked(cfg.rules, application_id(cfg, k, i)) is Ok);
        assert(!keyless(cfg, k, i));
        assert(unresolved(cfg, k, i));
    }
    if exists|k: int, i: int| #[trigger] unresolved(cfg, k, i) {
        let (k, i) = choose|k: int, i: int| #[trigger] unresolved(cfg, k, i);
        assert(applied(cfg, k, i));
        assert(checked(cfg.rules, application_id(cfg, k, i)) is Err);
    }
}

/// The id that the alias with the id `id` stands for, where `id` is the id
/// of an alias.
pub open spec fn alias_target(rules: RuleTable, id: Seq<char>) -> Option<Seq<char>> {
    match located(rules, id) {
        Some(found) => match found.spec(rules).ty {
            RuleTypeView::Alias { rule, .. } => Some(rule),
            _ => None,
        },
        None => None,
    }
}

/// The id that is reached from `id` after `count` aliases.
pub open spec fn alias_chain(rules: RuleTable, id: Seq<char>, count: nat) -> Seq<char>
    decreases count,
{
    if count == 0 {
        id
    } else {
        match alias_target(rules, id) {
            Some(next) => alias_chain(rules, next, (count - 1) as nat),
            None => id,
        }
    }
}

/// Whether `id` is resolved after exactly `steps` aliases and no fewer.
pub open spec fn resolved_in(rules: RuleTable, id: Seq<char>, steps: nat) -> bool {
    resolve(rules, id, steps) is Some && (steps == 0 || resolve(rules, id, (steps - 1) as nat)
        is None)
}

/// The place of a located id among all rules: those of the configuration
/// first, then those of the catalog.
pub open spec fn place_of(rules: RuleTable, id: Seq<char>) -> int {
    match located(rules, id) {
        Some(found) => if found.builtin {
            rules.len() + found.index
        } else {
            found.index
        },
        None => -1,
    }
}

/// More steps do not change what an id resolves to.
pub proof fn lemma_resolve_monotonic(rules: RuleTable, id: Seq<char>, steps: nat, more: nat)
    requires
        resolve(rules, id, steps) is Some,
        steps <= more,
    ensures
        resolve(rules, id, more) == resolve(rules, id, steps),
    decreases steps,
{
    match located(rules, id) {
        None => {},
        Some(found) => match found.spec(rules).ty {
            RuleTypeView::Alias { rule, hide_rule } => {
                lemma_resolve_monotonic(rules, rule, (steps - 1) as nat, (more - 1) as nat);
            },
            _ => {},
        },
    }
}

proof fn lemma_resolved_in_exists(rules: RuleTable, id: Seq<char>, steps: nat) -> (least: nat)
    requires
        resolve(rules, id, steps) is Some,
    ensures
        least <= steps,
        resolved_in(rules, id, least),
    decreases steps,
{
    if steps == 0 || resolve(rules, id, (steps - 1) as nat) is None {
        steps
    } else {
        lemma_resolved_in_exists(rules, id, (steps - 1) as nat)
    }
}

proof fn lemma_resolved_in_unique(rules: RuleTable, id: Seq<char>, a: nat, b: nat)
    requires
        resolved_in(rules, id, a),
        resolved_in(rules, id, b),
    ensures
        a == b,
{
    if a < b {
        lemma_resolve_monotonic(rules, id, a, (b - 1) as nat);
    } else if b < a {
        lemma_resolve_monotonic(rules, id, b, (a - 1) as nat);
    }
}

proof fn lemma_chain(rules: RuleTable, id: Seq<char>, steps: nat, count: nat)
    requires
        resolved_in(rules, id, steps),
        count <= steps,
    ensures
        resolved_in(rules, alias_chain(rules, id, count), (steps - count) as nat),
        located(rules, alias_chain(rules, id, count)) is Some,
    decreases count,
{
    if count > 0 {
        let found = located(rules, id)->0;
        match found.spec(rules).ty {
            RuleTypeView::Alias { rule, hide_rule } => {
                assert(resolve(rules, rule, (steps - 1) as nat) is Some);
                if steps - 1 > 0 {
                    assert(resolve(rules, rule, (steps - 2) as nat) is None);
                }
                lemma_chain(rules, rule, (steps - 1) as nat, (count - 1) as nat);
            },
            _ => {
                assert(resolve(rules, id, (steps - 1) as nat) is Some);
            },
        }
    }
}

proof fn lemma_place(rules: RuleTable, a: Seq<char>, b: Seq<char>)
    requires
        located(rules, a) is Some,
        located(rules, b) is Some,
    ensures
        0 <= place_of(rules, a) < alias_bound(rules),
        place_of(rules, a) == place_of(rules, b) ==> a == b,
{
    lemma_position(rules, a, 0);
    lemma_position(rules, b, 0);
    lemma_position(builtin_catalog(), a, 0);
    lemma_position(builtin_catalog(), b, 0);
}

proof fn lemma_chain_is_short(rules: RuleTable, id: Seq<char>, steps: nat)
    requires
        resolved_in(rules, id, steps),
    ensures
        steps < alias_bound(rules),
{
    let bound = alias_bound(rules) as int;
    let places = Seq::new(steps + 1, |j: int| place_of(rules, alias_chain(rules, id, j as nat)));
    assert forall|i: int, j: int|
        0 <= i < places.len() && 0 <= j < places.len() && i != j implies places[i] != places[j] by {
        let a = alias_chain(rules, id, i as nat);
        let b = alias_chain(rules, id, j as nat);
        lemma_chain(rules, id, steps, i as nat);
        lemma_chain(rules, id, steps, j as nat);
        lemma_place(rules, a, b);
        if a == b {
            lemma_resolved_in_unique(rules, a, (steps - i) as nat, (steps - j) as nat);
        }
    }
    places.unique_seq_to_set();
    vstd::set_lib::lemma_int_range(0, bound);
    assert(places.to_set().subset_of(vstd::set_lib::set_int_range(0, bound))) by {
        assert forall|p: int| places.to_set().contains(p) implies vstd::set_lib::set_int_range(
            0,
            bound,
        ).contains(p) by {
            let j = choose|j: int| 0 <= j < places.len() && places[j] == p;
            let a = alias_chain(rules, id, j as nat);
            lemma_chain(rules, id, steps, j as nat);
            lemma_place(rules, a, a);
        }
    }
    vstd::set_lib::lemma_len_subset(places.to_set(), vstd::set_lib::set_int_range(0, bound));
}

/// The number of aliases that a processor follows is no restriction: an id
/// that is resolved after any number of aliases is resolved, to the same
/// rule, within the number of rules of the configuration and the catalog. A
/// chain of aliases that is longer comes back to one of its ids and never
/// ends.
pub proof fn law_alias_bound(rules: RuleTable, id: Seq<char>, steps: nat)
    requires
        steps >= alias_bound(rules),
    ensures
        resolve(rules, id, steps) == resolve(rules, id, alias_bound(rules)),
{
    if resolve(rules, id, steps) is Some {
        let least = lemma_resolved_in_exists(rules, id, steps);
        lemma_chain_is_short(rules, id, least);
        lemma_resolve_monotonic(rules, id, least, steps);
        lemma_resolve_monotonic(rules, id, least, alias_bound(rules));
    } else if resolve(rules, id, alias_bound(rules)) is Some {
        lemma_resolve_monotonic(rules, id, alias_bound(rules), steps);
    }
}

} // verus!
