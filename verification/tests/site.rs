use streamhead::help::{conv, help_pages, menu_items, page_html, TreeItem};
use streamhead::site::{
    account_creation_email, auth_join_decision, dashboard_samples, dashboard_scope,
    generate_activation_secret, generate_secret, has_permissions, secret_from_seed, ingest_reply, join_reply,
    password_reset_email, stream_status, DashboardScope, IngestReply, JoinReply, StreamStatus,
    PERMISSION_ADMIN,
};

#[test]
fn permissions_need_every_bit() {
    assert!(has_permissions(Some(0x3), PERMISSION_ADMIN));
    assert!(has_permissions(Some(0x3), 0x3));
    assert!(!has_permissions(Some(0x2), 0x3));
    assert!(!has_permissions(None, 0x1));
    assert!(has_permissions(Some(0), 0));
}

#[test]
fn dashboard_scopes() {
    assert_eq!(dashboard_scope(true, None), DashboardScope::All);
    assert_eq!(dashboard_scope(false, Some(4)), DashboardScope::Account(4));
    assert_eq!(dashboard_scope(false, None), DashboardScope::Login);
}

#[test]
fn dashboard_totals_run_over_all_samples() {
    let samples = vec![(10, 5, 100), (20, 1, 0), (30, 0, 50)];
    let r = dashboard_samples(&samples);
    let got: Vec<(i64, u64, u64)> = r.iter().map(|s| (s.time, s.ingest_bytes, s.other_bytes)).collect();
    assert_eq!(got, vec![(10, 100, 5), (20, 100, 6), (30, 150, 6)]);
    assert!(dashboard_samples(&vec![]).is_empty());
}

#[test]
fn join_requests() {
    assert_eq!(auth_join_decision(Some(9)), Some(true));
    assert_eq!(auth_join_decision(Some(10)), Some(false));
    assert_eq!(auth_join_decision(None), None);
    assert_eq!(join_reply(Some(Some(true))), JoinReply::Accepted);
    assert_eq!(join_reply(Some(Some(false))), JoinReply::Unavailable);
    assert_eq!(join_reply(Some(None)), JoinReply::NotFound);
    assert_eq!(join_reply(None), JoinReply::Internal);
}

#[test]
fn ingest_replies() {
    match ingest_reply(Some(Some((1, 2, "a".to_string())))) {
        IngestReply::Accepted { streamer_id, stream_session_id, streamer_name } => {
            assert_eq!((streamer_id, stream_session_id, streamer_name.as_str()), (1, 2, "a"))
        }
        _ => panic!("not accepted"),
    }
    assert!(matches!(ingest_reply(Some(None)), IngestReply::PermissionDenied));
    assert!(matches!(ingest_reply(None), IngestReply::Internal));
}

#[test]
fn stream_statuses() {
    assert!(matches!(stream_status(Some((1, "a".to_string())), true), Some(StreamStatus::Online(n)) if n == "a"));
    assert!(matches!(stream_status(Some((1, "a".to_string())), false), Some(StreamStatus::Offline(n)) if n == "a"));
    assert!(stream_status(None, true).is_none());
}

#[test]
fn secrets_are_alphanumeric() {
    let mut dest = [0u8; 32];
    generate_activation_secret(&mut dest);
    assert!(dest.iter().all(|b| b.is_ascii_alphanumeric()));
    let s = generate_secret(64).unwrap();
    assert_eq!(s.len(), 64);
    assert!(s.bytes().all(|b| b.is_ascii_alphanumeric()));
}

#[test]
fn secret_from_seed_is_fixed_by_the_seed() {
    let seed = [7u8; 32];
    let a = secret_from_seed(&seed, 40);
    let b = secret_from_seed(&seed, 40);
    assert_eq!(a, b);
    assert_eq!(a.len(), 40);
    assert!(a.bytes().all(|c| c.is_ascii_alphanumeric()));
    let other = secret_from_seed(&[8u8; 32], 40);
    assert_ne!(a, other);
    assert_eq!(secret_from_seed(&seed, 0), "");
}

#[test]
fn account_emails() {
    let e = account_creation_email("example.org", "https://example.org/", "a@b.c", "XYZ");
    assert_eq!(e.from, "example.org <no-reply@example.org>");
    assert_eq!(e.to, "<a@b.c>");
    assert_eq!(e.subject, "Create an account");
    assert_eq!(e.plain, "Go to https://example.org/account/activate/XYZ to create a new account");
    assert_eq!(
        e.html,
        "<html><body>Click <a href=\"https://example.org/account/activate/XYZ\">here</a> to create a new account</body></html>"
    );
    let r = password_reset_email("example.org", "https://example.org/", "a@b.c", "S");
    assert_eq!(r.subject, "Reset your password");
    assert_eq!(r.plain, "Go to https://example.org/account/reset/S to change your password");
}

fn tree() -> Vec<TreeItem> {
    vec![
        TreeItem::Item { name: "Intro".into(), path: "index.html".into(), src_file: "intro.md".into() },
        TreeItem::Menu {
            name: "Streaming".into(),
            path: "streaming".into(),
            items: vec![
                TreeItem::Item { name: "OBS".into(), path: "obs.html".into(), src_file: "obs.md".into() },
                TreeItem::Menu { name: "Empty".into(), path: "e".into(), items: vec![] },
                TreeItem::Item { name: "Keys".into(), path: "keys.html".into(), src_file: "keys.md".into() },
            ],
        },
    ]
}

#[test]
fn help_menu_mirrors_the_tree() {
    let t = tree();
    let menu = menu_items(&t);
    assert_eq!(menu.len(), 2);
    assert_eq!(menu[0].name, "Intro");
    assert!(menu[0].children.is_empty());
    assert_eq!(menu[1].path, "streaming");
    assert_eq!(menu[1].children.len(), 3);
    assert_eq!(menu[1].children[2].name, "Keys");
    let single = conv(&t[1]);
    assert_eq!(single.children[1].children.len(), 0);
}

#[test]
fn help_pages_depth_first() {
    let pages: Vec<(String, String)> = help_pages(&tree())
        .into_iter()
        .map(|p| (p.path, p.src_file))
        .collect();
    assert_eq!(
        pages,
        vec![
            ("index.html".to_string(), "intro.md".to_string()),
            ("obs.html".to_string(), "obs.md".to_string()),
            ("keys.html".to_string(), "keys.md".to_string()),
        ]
    );
}

#[test]
fn help_page_markdown_becomes_html() {
    assert_eq!(page_html("# Title\n"), "<h1>Title</h1>\n");
    assert_eq!(page_html("some *text*"), "<p>some <em>text</em></p>\n");
}
