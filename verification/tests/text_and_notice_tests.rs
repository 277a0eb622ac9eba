use catalog_txn::ids::{ClusterId, DatabaseId, GlobalId, ReplicaId, RoleId, SchemaId};
use catalog_txn::notice::{
    Action, ActionKind, IndexKeyEmpty, IndexTooWideForLiteralConstraints, OptimizerNotice,
    OptimizerNoticeKind, RawOptimizerNotice,
};
use catalog_txn::objects::Timeline;
use catalog_txn::text::{fmt_u64, join_with};

#[test]
fn decimal_rendering_is_exact() {
    assert_eq!(fmt_u64(0), "0");
    assert_eq!(fmt_u64(7), "7");
    assert_eq!(fmt_u64(12345), "12345");
    assert_eq!(fmt_u64(u64::MAX), "18446744073709551615");
}

#[test]
fn id_rendering_is_exact() {
    assert_eq!(GlobalId::User(12).to_text(), "u12");
    assert_eq!(GlobalId::System(0).to_text(), "s0");
    assert_eq!(GlobalId::Transient(3).to_text(), "t3");
    assert_eq!(GlobalId::Explain.to_text(), "Explain");
    assert_eq!(DatabaseId::User(1).to_text(), "u1");
    assert_eq!(SchemaId::System(2).to_text(), "s2");
    assert_eq!(RoleId::Public.to_text(), "p");
    assert_eq!(ClusterId::User(4).to_text(), "u4");
    assert_eq!(ReplicaId::System(5).to_text(), "s5");
}

#[test]
fn timeline_rendering_is_exact() {
    assert_eq!(Timeline::EpochMilliseconds.to_text(), "M");
    assert_eq!(Timeline::External("foo".to_string()).to_text(), "E.foo");
    assert_eq!(Timeline::User("bar".to_string()).to_text(), "U.bar");
}

#[test]
fn join_inserts_separators_between_elements() {
    assert_eq!(join_with(&vec![], ", "), "");
    assert_eq!(join_with(&vec!["a".to_string()], ", "), "a");
    assert_eq!(
        join_with(&vec!["a".to_string(), "b".to_string(), "c".to_string()], ", "),
        "a, b, c"
    );
    assert_eq!(
        join_with(&vec!["u1".to_string(), "u2".to_string()], ","),
        "u1,u2"
    );
}

#[test]
fn action_kinds_and_labels() {
    assert_eq!(Action::NoAction.kind(), ActionKind::NoAction);
    assert_eq!(
        Action::PlainText("x".to_string()).kind(),
        ActionKind::PlainText
    );
    assert_eq!(
        Action::SqlStatements("SELECT 1;".to_string()).kind(),
        ActionKind::SqlStatements
    );
    assert_eq!(ActionKind::NoAction.as_str(), "");
    assert_eq!(ActionKind::PlainText.as_str(), "plain_text");
    assert_eq!(ActionKind::SqlStatements.as_str(), "sql_statements");
}

#[test]
fn notice_kind_labels() {
    assert_eq!(
        OptimizerNoticeKind::IndexTooWideForLiteralConstraints.as_str(),
        "Index too wide for literal constraints"
    );
    assert_eq!(OptimizerNoticeKind::IndexKeyEmpty.as_str(), "Empty index key");
    assert_eq!(
        OptimizerNoticeKind::IndexKeyEmpty.metric_label(),
        "IndexKeyEmpty"
    );
    let raw = RawOptimizerNotice::IndexKeyEmpty(IndexKeyEmpty {
        index_id: GlobalId::User(1),
    });
    assert_eq!(raw.metric_label(), "Empty index key");
    assert_eq!(raw.kind(), OptimizerNoticeKind::IndexKeyEmpty);
}

#[test]
fn raw_explain_filters_invalid_notices() {
    let notices = vec![
        RawOptimizerNotice::IndexKeyEmpty(IndexKeyEmpty {
            index_id: GlobalId::User(1),
        }),
        RawOptimizerNotice::IndexTooWideForLiteralConstraints(IndexTooWideForLiteralConstraints {
            index_id: GlobalId::User(2),
        }),
    ];
    // Only the first notice's dependency exists.
    let existing = vec![GlobalId::User(1)];
    let lines = RawOptimizerNotice::explain(&notices, &existing, false);
    assert_eq!(lines.len(), 1);
    assert_eq!(
        lines[0],
        "  - Notice: index has an empty key\n    Hint: drop the index and recreate it with a non-empty key"
    );
    // With both dependencies, the wide-index notice renders its id, and
    // the redacted form hides it.
    let existing = vec![GlobalId::User(1), GlobalId::User(2)];
    let lines = RawOptimizerNotice::explain(&notices, &existing, false);
    assert_eq!(lines.len(), 2);
    assert!(lines[1].contains("index u2 is too wide"));
    let redacted = RawOptimizerNotice::explain(&notices, &existing, true);
    assert!(redacted[1].contains("index [redacted] is too wide"));
}

#[test]
fn stored_explain_renders_redacted_fields() {
    let notice = OptimizerNotice {
        kind: OptimizerNoticeKind::IndexKeyEmpty,
        item_id: Some(GlobalId::User(1)),
        dependencies: vec![GlobalId::User(1)],
        message: "plain message".to_string(),
        hint: "plain hint".to_string(),
        action: Action::NoAction,
        message_redacted: "redacted message".to_string(),
        hint_redacted: "redacted hint".to_string(),
        action_redacted: Action::NoAction,
        created_at: 0,
    };
    let existing = vec![GlobalId::User(1)];
    let plain = OptimizerNotice::explain(&vec![notice.clone()], &existing, false);
    assert_eq!(
        plain,
        vec!["  - Notice: plain message\n    Hint: plain hint".to_string()]
    );
    let redacted = OptimizerNotice::explain(&vec![notice.clone()], &existing, true);
    assert_eq!(
        redacted,
        vec!["  - Notice: redacted message\n    Hint: redacted hint".to_string()]
    );
    // A notice whose dependency is gone is dropped from the listing.
    let gone = OptimizerNotice::explain(&vec![notice], &vec![], false);
    assert!(gone.is_empty());
}
