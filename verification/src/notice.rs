//! Notices that the optimizer wants to show to users: a closed set of
//! notice kinds, each rendering a message and a hint in a plain or
//! redacted form, plus the explain listing that renders every notice
//! whose dependencies still exist.

use vstd::prelude::*;

use crate::ids::GlobalId;

verus! {

/// A recommended action attached to a notice.
#[derive(Clone, Debug)]
pub enum Action {
    /// No action.
    NoAction,
    /// An action that cannot be defined as a program.
    PlainText(String),
    /// One or more fully-qualified SQL statements that carry out the
    /// recommendation.
    SqlStatements(String),
}

/// The kind of an [`Action`], without its payload.
#[derive(Clone, Copy, Debug, PartialEq, Eq, Structural)]
pub enum ActionKind {
    NoAction,
    PlainText,
    SqlStatements,
}

impl Action {
    /// The kind of this action.
    pub fn kind(&self) -> (r: ActionKind)
        ensures
            r == (match self {
                Action::NoAction => ActionKind::NoAction,
                Action::PlainText(_) => ActionKind::PlainText,
                Action::SqlStatements(_) => ActionKind::SqlStatements,
            }),
    {
        match self {
            Action::NoAction => ActionKind::NoAction,
            Action::PlainText(_) => ActionKind::PlainText,
            Action::SqlStatements(_) => ActionKind::SqlStatements,
        }
    }
}

impl ActionKind {
    /// A stable label for this action kind.
    pub fn as_str(&self) -> (r: &'static str)
        ensures
            r@ == (match self {
                ActionKind::NoAction => ""@,
                ActionKind::PlainText => "plain_text"@,
                ActionKind::SqlStatements => "sql_statements"@,
            }),
    {
        match self {
            ActionKind::NoAction => "",
            ActionKind::PlainText => "plain_text",
            ActionKind::SqlStatements => "sql_statements",
        }
    }
}

/// The sequence contains the id.
pub open spec fn contains_gid(s: Seq<GlobalId>, g: GlobalId) -> bool {
    exists|i: int| 0 <= i < s.len() && s[i] == g
}

/// Every dependency is among the existing ids.
pub open spec fn deps_valid(deps: Seq<GlobalId>, existing: Seq<GlobalId>) -> bool {
    forall|i: int| 0 <= i < deps.len() ==> contains_gid(existing, #[trigger] deps[i])
}

/// Decides membership of an id in a list.
fn gid_list_contains(s: &Vec<GlobalId>, g: GlobalId) -> (r: bool)
    ensures
        r == contains_gid(s@, g),
{
    let n = s.len();
    let mut i: usize = 0;
    while i < n
        invariant
            n == s.len(),
            i <= n,
            forall|t: int| 0 <= t < i ==> s@[t] != g,
        decreases n - i,
    {
        if s[i] == g {
            return true;
        }
        i += 1;
    }
    false
}

/// Decides whether every dependency is among the existing ids.
fn deps_all_exist(deps: &Vec<GlobalId>, existing: &Vec<GlobalId>) -> (r: bool)
    ensures
        r == deps_valid(deps@, existing@),
{
    let n = deps.len();
    let mut i: usize = 0;
    while i < n
        invariant
            n == deps.len(),
            i <= n,
            forall|t: int| 0 <= t < i ==> contains_gid(existing@, #[trigger] deps@[t]),
        decreases n - i,
    {
        if !gid_list_contains(existing, deps[i]) {
            return false;
        }
        i += 1;
    }
    true
}

/// The rendering of one notice in an explain listing.
pub open spec fn notice_line(msg: Seq<char>, hint: Seq<char>) -> Seq<char> {
    "  - Notice: "@ + msg + "\n"@ + "    Hint: "@ + hint
}

fn render_notice_line(msg: &str, hint: &str) -> (r: String)
    ensures
        r@ == notice_line(msg@, hint@),
{
    let mut s = "  - Notice: ".to_owned();
    s.append(msg);
    s.append("\n");
    s.append("    Hint: ");
    s.append(hint);
    s
}

/// The interface every notice kind implements: its dependencies and the
/// rendering of its message, hint and recommended action, each in a plain
/// and a redacted form.
pub trait OptimizerNoticeApi: Sized {
    /// The ids that must exist for this notice to remain valid.
    spec fn dependencies_spec(&self) -> Seq<GlobalId>;

    /// The rendering of the message.
    spec fn message_spec(&self, redacted: bool) -> Seq<char>;

    /// The rendering of the hint.
    spec fn hint_spec(&self, redacted: bool) -> Seq<char>;

    /// The ids that must exist for this notice to remain valid.
    fn dependencies(&self) -> (r: Vec<GlobalId>)
        ensures
            r@ == self.dependencies_spec();

    /// A brief description of what concretely went wrong.
    fn message(&self, redacted: bool) -> (r: String)
        ensures
            r@ == self.message_spec(redacted);

    /// A high-level hint that tells the user what can be improved.
    fn hint(&self, redacted: bool) -> (r: String)
        ensures
            r@ == self.hint_spec(redacted);

    /// The kind of action this notice recommends.
    fn action_kind(&self) -> ActionKind;
}

/// An index whose key is empty.
#[derive(Clone, Debug)]
pub struct IndexKeyEmpty {
    pub index_id: GlobalId,
}

impl OptimizerNoticeApi for IndexKeyEmpty {
    open spec fn dependencies_spec(&self) -> Seq<GlobalId> {
        seq![self.index_id]
    }

    open spec fn message_spec(&self, redacted: bool) -> Seq<char> {
        "index has an empty key"@
    }

    open spec fn hint_spec(&self, redacted: bool) -> Seq<char> {
        "drop the index and recreate it with a non-empty key"@
    }

    fn dependencies(&self) -> (r: Vec<GlobalId>) {
        let mut v: Vec<GlobalId> = Vec::new();
        v.push(self.index_id);
        proof {
            assert(v@ =~= seq![self.index_id]);
        }
        v
    }

    fn message(&self, redacted: bool) -> (r: String) {
        "index has an empty key".to_owned()
    }

    fn hint(&self, redacted: bool) -> (r: String) {
        "drop the index and recreate it with a non-empty key".to_owned()
    }

    fn action_kind(&self) -> ActionKind {
        ActionKind::SqlStatements
    }
}

/// An index too wide to serve point lookups for literal constraints.
#[derive(Clone, Debug)]
pub struct IndexTooWideForLiteralConstraints {
    pub index_id: GlobalId,
}

impl OptimizerNoticeApi for IndexTooWideForLiteralConstraints {
    open spec fn dependencies_spec(&self) -> Seq<GlobalId> {
        seq![self.index_id]
    }

    open spec fn message_spec(&self, redacted: bool) -> Seq<char> {
        if redacted {
            "index [redacted] is too wide to use for literal equality constraints"@
        } else {
            "index "@ + self.index_id.text_spec()
                + " is too wide to use for literal equality constraints"@
        }
    }

    open spec fn hint_spec(&self, redacted: bool) -> Seq<char> {
        "create an index whose key exactly matches the constrained columns"@
    }

    fn dependencies(&self) -> (r: Vec<GlobalId>) {
        let mut v: Vec<GlobalId> = Vec::new();
        v.push(self.index_id);
        proof {
            assert(v@ =~= seq![self.index_id]);
        }
        v
    }

    fn message(&self, redacted: bool) -> (r: String) {
        if redacted {
            "index [redacted] is too wide to use for literal equality constraints".to_owned()
        } else {
            let mut s = "index ".to_owned();
            s.append(self.index_id.to_text().as_str());
            s.append(" is too wide to use for literal equality constraints");
            s
        }
    }

    fn hint(&self, redacted: bool) -> (r: String) {
        "create an index whose key exactly matches the constrained columns".to_owned()
    }

    fn action_kind(&self) -> ActionKind {
        ActionKind::PlainText
    }
}

/// A notice emitted by an optimizer pipeline: one variant per notice
/// kind.
#[derive(Clone, Debug)]
pub enum RawOptimizerNotice {
    IndexTooWideForLiteralConstraints(IndexTooWideForLiteralConstraints),
    IndexKeyEmpty(IndexKeyEmpty),
}

/// The kind of a [`RawOptimizerNotice`] or [`OptimizerNotice`], without
/// its payload.
#[derive(Clone, Copy, Debug, PartialEq, Eq, Structural, PartialOrd, Ord)]
pub enum OptimizerNoticeKind {
    IndexTooWideForLiteralConstraints,
    IndexKeyEmpty,
}

impl OptimizerNoticeKind {
    /// The human-readable name of this notice kind.
    pub fn as_str(&self) -> (r: &'static str)
        ensures
            r@ == (match self {
                OptimizerNoticeKind::IndexTooWideForLiteralConstraints => {
                    "Index too wide for literal constraints"@
                },
                OptimizerNoticeKind::IndexKeyEmpty => "Empty index key"@,
            }),
    {
        match self {
            OptimizerNoticeKind::IndexTooWideForLiteralConstraints => {
                "Index too wide for literal constraints"
            },
            OptimizerNoticeKind::IndexKeyEmpty => "Empty index key",
        }
    }

    /// The label applied to the metric that counts notices of this kind.
    pub fn metric_label(&self) -> (r: &'static str)
        ensures
            r@ == (match self {
                OptimizerNoticeKind::IndexTooWideForLiteralConstraints => {
                    "IndexTooWideForLiteralConstraints"@
                },
                OptimizerNoticeKind::IndexKeyEmpty => "IndexKeyEmpty"@,
            }),
    {
        match self {
            OptimizerNoticeKind::IndexTooWideForLiteralConstraints => {
                "IndexTooWideForLiteralConstraints"
            },
            OptimizerNoticeKind::IndexKeyEmpty => "IndexKeyEmpty",
        }
    }
}

impl OptimizerNoticeApi for RawOptimizerNotice {
    open spec fn dependencies_spec(&self) -> Seq<GlobalId> {
        match self {
            RawOptimizerNotice::IndexTooWideForLiteralConstraints(n) => n.dependencies_spec(),
            RawOptimizerNotice::IndexKeyEmpty(n) => n.dependencies_spec(),
        }
    }

    open spec fn message_spec(&self, redacted: bool) -> Seq<char> {
        match self {
            RawOptimizerNotice::IndexTooWideForLiteralConstraints(n) => n.message_spec(redacted),
            RawOptimizerNotice::IndexKeyEmpty(n) => n.message_spec(redacted),
        }
    }

    open spec fn hint_spec(&self, redacted: bool) -> Seq<char> {
        match self {
            RawOptimizerNotice::IndexTooWideForLiteralConstraints(n) => n.hint_spec(redacted),
            RawOptimizerNotice::IndexKeyEmpty(n) => n.hint_spec(redacted),
        }
    }

    fn dependencies(&self) -> (r: Vec<GlobalId>) {
        match self {
            RawOptimizerNotice::IndexTooWideForLiteralConstraints(n) => n.dependencies(),
            RawOptimizerNotice::IndexKeyEmpty(n) => n.dependencies(),
        }
    }

    fn message(&self, redacted: bool) -> (r: String) {
        match self {
            RawOptimizerNotice::IndexTooWideForLiteralConstraints(n) => n.message(redacted),
            RawOptimizerNotice::IndexKeyEmpty(n) => n.message(redacted),
        }
    }

    fn hint(&self, redacted: bool) -> (r: String) {
        match self {
            RawOptimizerNotice::IndexTooWideForLiteralConstraints(n) => n.hint(redacted),
            RawOptimizerNotice::IndexKeyEmpty(n) => n.hint(redacted),
        }
    }

    fn action_kind(&self) -> ActionKind {
        match self {
            RawOptimizerNotice::IndexTooWideForLiteralConstraints(n) => n.action_kind(),
            RawOptimizerNotice::IndexKeyEmpty(n) => n.action_kind(),
        }
    }
}

/// The explain lines of the raw notices whose dependencies all exist, in
/// input order.
pub open spec fn raw_explain_lines(
    notices: Seq<RawOptimizerNotice>,
    existing: Seq<GlobalId>,
    redacted: bool,
) -> Seq<Seq<char>>
    decreases notices.len(),
{
    if notices.len() == 0 {
        Seq::empty()
    } else {
        let rest = raw_explain_lines(notices.drop_last(), existing, redacted);
        let last = notices.last();
        if deps_valid(last.dependencies_spec(), existing) {
            rest.push(notice_line(last.message_spec(redacted), last.hint_spec(redacted)))
        } else {
            rest
        }
    }
}

impl RawOptimizerNotice {
    /// The kind of this notice.
    pub fn kind(&self) -> (r: OptimizerNoticeKind)
        ensures
            r == (match self {
                RawOptimizerNotice::IndexTooWideForLiteralConstraints(_) => {
                    OptimizerNoticeKind::IndexTooWideForLiteralConstraints
                },
                RawOptimizerNotice::IndexKeyEmpty(_) => OptimizerNoticeKind::IndexKeyEmpty,
            }),
    {
        match self {
            RawOptimizerNotice::IndexTooWideForLiteralConstraints(_) => {
                OptimizerNoticeKind::IndexTooWideForLiteralConstraints
            },
            RawOptimizerNotice::IndexKeyEmpty(_) => OptimizerNoticeKind::IndexKeyEmpty,
        }
    }

    /// The label applied to the metric that counts notices of this kind.
    pub fn metric_label(&self) -> (r: &'static str)
        ensures
            r@ == self.kind_label_spec(),
    {
        self.kind().as_str()
    }

    /// The rendering of this notice's kind name.
    pub open spec fn kind_label_spec(&self) -> Seq<char> {
        match self {
            RawOptimizerNotice::IndexTooWideForLiteralConstraints(_) => {
                "Index too wide for literal constraints"@
            },
            RawOptimizerNotice::IndexKeyEmpty(_) => "Empty index key"@,
        }
    }

    /// True exactly when every dependency of this notice is among the
    /// existing ids.
    fn is_valid(&self, existing: &Vec<GlobalId>) -> (r: bool)
        ensures
            r == deps_valid(self.dependencies_spec(), existing@),
    {
        let deps = self.dependencies();
        deps_all_exist(&deps, existing)
    }

    /// Renders every notice whose dependencies all exist (against the
    /// given set of existing ids) as explain lines, in input order.
    pub fn explain(
        notices: &Vec<RawOptimizerNotice>,
        existing: &Vec<GlobalId>,
        redacted: bool,
    ) -> (r: Vec<String>)
        ensures
            r@.map_values(|s: String| s@) == raw_explain_lines(notices@, existing@, redacted),
    {
        let n = notices.len();
        let mut out: Vec<String> = Vec::new();
        let mut i: usize = 0;
        while i < n
            invariant
                n == notices.len(),
                i <= n,
                out@.map_values(|s: String| s@) == raw_explain_lines(
                    notices@.take(i as int),
                    existing@,
                    redacted,
                ),
            decreases n - i,
        {
            proof {
                assert(notices@.take(i + 1).drop_last() =~= notices@.take(i as int));
                assert(notices@.take(i + 1).last() == notices@[i as int]);
            }
            if notices[i].is_valid(existing) {
                let msg = notices[i].message(redacted);
                let hint = notices[i].hint(redacted);
                out.push(render_notice_line(msg.as_str(), hint.as_str()));
            }
            proof {
                assert(out@.map_values(|s: String| s@) =~= raw_explain_lines(
                    notices@.take(i + 1),
                    existing@,
                    redacted,
                ));
            }
            i += 1;
        }
        proof {
            assert(notices@.take(n as int) =~= notices@);
        }
        out
    }
}

/// A long-lived notice kept in the hydrated catalog state, with its
/// rendering precomputed in both plain and redacted form.
#[derive(Clone, Debug)]
pub struct OptimizerNotice {
    /// The notice kind.
    pub kind: OptimizerNoticeKind,
    /// The catalog item this notice is attached to, or none when it is
    /// scoped to the whole catalog.
    pub item_id: Option<GlobalId>,
    /// The ids that must exist for this notice to remain valid.
    pub dependencies: Vec<GlobalId>,
    /// A brief description of what concretely went wrong.
    pub message: String,
    /// A high-level hint that tells the user what can be improved.
    pub hint: String,
    /// A recommended action, more concrete than the hint.
    pub action: Action,
    /// The redacted form of the message.
    pub message_redacted: String,
    /// The redacted form of the hint.
    pub hint_redacted: String,
    /// The redacted form of the action.
    pub action_redacted: Action,
    /// When this notice was last created.
    pub created_at: u64,
}

/// The explain lines of the stored notices whose dependencies all exist,
/// in input order, in plain or redacted form.
pub open spec fn stored_explain_lines(
    notices: Seq<OptimizerNotice>,
    existing: Seq<GlobalId>,
    redacted: bool,
) -> Seq<Seq<char>>
    decreases notices.len(),
{
    if notices.len() == 0 {
        Seq::empty()
    } else {
        let rest = stored_explain_lines(notices.drop_last(), existing, redacted);
        let last = notices.last();
        if deps_valid(last.dependencies@, existing) {
            if redacted {
                rest.push(notice_line(last.message_redacted@, last.hint_redacted@))
            } else {
                rest.push(notice_line(last.message@, last.hint@))
            }
        } else {
            rest
        }
    }
}

impl OptimizerNotice {
    /// True exactly when every dependency of this notice is among the
    /// existing ids.
    fn is_valid(&self, existing: &Vec<GlobalId>) -> (r: bool)
        ensures
            r == deps_valid(self.dependencies@, existing@),
    {
        deps_all_exist(&self.dependencies, existing)
    }

    /// Renders every stored notice whose dependencies all exist (against
    /// the given set of existing ids) as explain lines, in input order,
    /// redacted on request.
    pub fn explain(
        notices: &Vec<OptimizerNotice>,
        existing: &Vec<GlobalId>,
        redacted: bool,
    ) -> (r: Vec<String>)
        ensures
            r@.map_values(|s: String| s@) == stored_explain_lines(notices@, existing@, redacted),
    {
        let n = notices.len();
        let mut out: Vec<String> = Vec::new();
        let mut i: usize = 0;
        while i < n
            invariant
                n == notices.len(),
                i <= n,
                out@.map_values(|s: String| s@) == stored_explain_lines(
                    notices@.take(i as int),
                    existing@,
                    redacted,
                ),
            decreases n - i,
        {
            proof {
                assert(notices@.take(i + 1).drop_last() =~= notices@.take(i as int));
                assert(notices@.take(i + 1).last() == notices@[i as int]);
            }
            if notices[i].is_valid(existing) {
                let line = if redacted {
                    render_notice_line(
                        notices[i].message_redacted.as_str(),
                        notices[i].hint_redacted.as_str(),
                    )
                } else {
                    render_notice_line(notices[i].message.as_str(), notices[i].hint.as_str())
                };
                out.push(line);
            }
            proof {
                assert(out@.map_values(|s: String| s@) =~= stored_explain_lines(
                    notices@.take(i + 1),
                    existing@,
                    redacted,
                ));
            }
            i += 1;
        }
        proof {
            assert(notices@.take(n as int) =~= notices@);
        }
        out
    }
}

} // verus!
