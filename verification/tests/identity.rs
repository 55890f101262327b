use winusers::buffer::{LsaBuffer, NetApiBuffer};
use winusers::sid::Sid;
use winusers::users::{
    get_users, more_pages, AccountEntry, AccountPage, GroupEntry, GroupLookup, SessionData,
    SessionList, SessionRecord, ERROR_ACCESS_DENIED, ERROR_INVALID_LEVEL, ERROR_MORE_DATA,
    LOGON_TYPE_NETWORK, NERR_SUCCESS,
};

/// A well-formed raw identifier: revision 1, authority 5, the given
/// subauthorities.
fn sid_bytes(subs: &[u32]) -> Vec<u8> {
    let mut b = vec![1u8, subs.len() as u8, 0, 0, 0, 0, 0, 5];
    for s in subs {
        b.extend_from_slice(&s.to_le_bytes());
    }
    b
}

fn wide(s: &str) -> Vec<u16> {
    s.chars().map(|c| c as u16).collect()
}

fn local_entry(name: &str, id: u32, resolved: Option<&str>) -> AccountEntry {
    AccountEntry {
        name: Some(wide(name)),
        detail_sid: Some(sid_bytes(&[21, id])),
        resolved_name: resolved.map(String::from),
    }
}

fn session_record(id: u32, logon_type: u32, resolved: Option<&str>) -> SessionRecord {
    SessionRecord {
        data: Some(SessionData {
            logon_type,
            sid_bytes: sid_bytes(&[21, id]),
            resolved_name: resolved.map(String::from),
            raw_name: wide("raw"),
        }),
    }
}

fn no_sessions() -> SessionList {
    SessionList { ok: true, sessions: Vec::new() }
}

#[test]
fn end_to_end_merge() {
    // Local accounts A(id=1) and B(id=2); sessions with ids 2, 3 (network)
    // and 4: the merged list is [A, B, session 4].
    let pages = vec![AccountPage {
        status: NERR_SUCCESS,
        entries: vec![local_entry("A", 1, Some("A")), local_entry("B", 2, Some("B"))],
    }];
    let sessions = SessionList {
        ok: true,
        sessions: vec![
            session_record(2, 2, Some("B-again")),
            session_record(3, LOGON_TYPE_NETWORK, Some("net")),
            session_record(4, 2, Some("S")),
        ],
    };
    let users = get_users(&pages, &sessions);
    assert_eq!(users.len(), 3);
    assert_eq!(users[0].name(), "A");
    assert_eq!(users[1].name(), "B");
    assert_eq!(users[2].name(), "S");
    assert!(users[0].is_local());
    assert!(users[1].is_local());
    assert!(!users[2].is_local());
    let sid4 = Sid::from_bytes(&sid_bytes(&[21, 4])).unwrap();
    assert!(users[2].id().same_as(&sid4));
    // No two entries share a canonical identifier.
    for i in 0..users.len() {
        for j in 0..users.len() {
            if i != j {
                assert!(!users[i].id().same_as(users[j].id()));
            }
        }
    }
}

#[test]
fn session_duplicate_of_local_is_dropped() {
    let pages = vec![AccountPage {
        status: NERR_SUCCESS,
        entries: vec![local_entry("A", 7, Some("A"))],
    }];
    let sessions =
        SessionList { ok: true, sessions: vec![session_record(7, 2, Some("ghost"))] };
    let users = get_users(&pages, &sessions);
    assert_eq!(users.len(), 1);
    assert_eq!(users[0].name(), "A");
}

#[test]
fn duplicate_local_identifier_listed_once() {
    // A listing that repeats one identifier — within a page or across
    // pages — yields that identifier exactly once, at its first
    // appearance.
    let pages = vec![
        AccountPage {
            status: ERROR_MORE_DATA,
            entries: vec![local_entry("first", 5, Some("first")), local_entry("again", 5, Some("again"))],
        },
        AccountPage { status: NERR_SUCCESS, entries: vec![local_entry("later", 5, Some("later"))] },
    ];
    let users = get_users(&pages, &no_sessions());
    assert_eq!(users.len(), 1);
    assert_eq!(users[0].name(), "first");
}

#[test]
fn duplicate_sessions_listed_once() {
    let pages = Vec::new();
    let sessions = SessionList {
        ok: true,
        sessions: vec![session_record(9, 2, Some("first")), session_record(9, 2, Some("second"))],
    };
    let users = get_users(&pages, &sessions);
    assert_eq!(users.len(), 1);
    assert_eq!(users[0].name(), "first");
}

#[test]
fn network_session_never_appears() {
    let pages = Vec::new();
    let sessions = SessionList {
        ok: true,
        sessions: vec![session_record(11, LOGON_TYPE_NETWORK, Some("net-only"))],
    };
    let users = get_users(&pages, &sessions);
    assert!(users.is_empty());
}

#[test]
fn pagination_gathers_all_pages() {
    let pages = vec![
        AccountPage { status: ERROR_MORE_DATA, entries: vec![local_entry("A", 1, Some("A"))] },
        AccountPage { status: NERR_SUCCESS, entries: vec![local_entry("B", 2, Some("B"))] },
    ];
    let users = get_users(&pages, &no_sessions());
    assert_eq!(users.len(), 2);
    assert_eq!(users[0].name(), "A");
    assert_eq!(users[1].name(), "B");
}

#[test]
fn enumeration_stops_at_first_success() {
    // A page after a success status is never asked for.
    let pages = vec![
        AccountPage { status: NERR_SUCCESS, entries: vec![local_entry("A", 1, Some("A"))] },
        AccountPage { status: NERR_SUCCESS, entries: vec![local_entry("B", 2, Some("B"))] },
    ];
    let users = get_users(&pages, &no_sessions());
    assert_eq!(users.len(), 1);
    assert_eq!(users[0].name(), "A");
}

#[test]
fn failed_page_keeps_partial_results() {
    for bad in [ERROR_ACCESS_DENIED, ERROR_INVALID_LEVEL, 31] {
        let pages = vec![
            AccountPage { status: ERROR_MORE_DATA, entries: vec![local_entry("A", 1, Some("A"))] },
            AccountPage { status: bad, entries: vec![local_entry("B", 2, Some("B"))] },
        ];
        let users = get_users(&pages, &no_sessions());
        assert_eq!(users.len(), 1);
        assert_eq!(users[0].name(), "A");
    }
}

#[test]
fn entry_skipping_rules() {
    let pages = vec![AccountPage {
        status: NERR_SUCCESS,
        entries: vec![
            // Null name: skipped.
            AccountEntry {
                name: None,
                detail_sid: Some(sid_bytes(&[1])),
                resolved_name: Some("x".into()),
            },
            // Failed detail lookup: skipped.
            AccountEntry { name: Some(wide("y")), detail_sid: None, resolved_name: None },
            // Malformed identifier: skipped.
            AccountEntry {
                name: Some(wide("z")),
                detail_sid: Some(vec![9, 9, 9]),
                resolved_name: Some("z".into()),
            },
            // Kept.
            local_entry("ok", 3, Some("ok")),
        ],
    }];
    let users = get_users(&pages, &no_sessions());
    assert_eq!(users.len(), 1);
    assert_eq!(users[0].name(), "ok");
}

#[test]
fn listed_name_is_fallback_only() {
    let pages = vec![AccountPage {
        status: NERR_SUCCESS,
        entries: vec![local_entry("listed", 1, Some("resolved")), local_entry("listed2", 2, None)],
    }];
    let users = get_users(&pages, &no_sessions());
    assert_eq!(users[0].name(), "resolved");
    assert_eq!(users[1].name(), "listed2");
}

#[test]
fn fallback_name_must_decode() {
    // An account whose name translation failed and whose listed name is
    // ill-formed text is dropped whole.
    let pages = vec![AccountPage {
        status: NERR_SUCCESS,
        entries: vec![AccountEntry {
            name: Some(vec![0xD800]),
            detail_sid: Some(sid_bytes(&[5])),
            resolved_name: None,
        }],
    }];
    let users = get_users(&pages, &no_sessions());
    assert!(users.is_empty());
}

#[test]
fn session_name_fallbacks() {
    let mut rec = session_record(1, 2, None);
    if let Some(d) = rec.data.as_mut() {
        d.raw_name = wide("embedded");
    }
    let mut bad = session_record(2, 2, None);
    if let Some(d) = bad.data.as_mut() {
        d.raw_name = vec![0xDC00];
    }
    let sessions = SessionList { ok: true, sessions: vec![rec, bad] };
    let users = get_users(&Vec::new(), &sessions);
    assert_eq!(users.len(), 2);
    assert_eq!(users[0].name(), "embedded");
    assert_eq!(users[1].name(), "");
}

#[test]
fn failed_session_enumeration_keeps_locals() {
    let pages = vec![AccountPage {
        status: NERR_SUCCESS,
        entries: vec![local_entry("A", 1, Some("A"))],
    }];
    let sessions = SessionList { ok: false, sessions: vec![session_record(4, 2, Some("S"))] };
    let users = get_users(&pages, &sessions);
    assert_eq!(users.len(), 1);
    assert_eq!(users[0].name(), "A");
}

#[test]
fn failed_session_lookup_is_skipped() {
    let sessions = SessionList { ok: true, sessions: vec![SessionRecord { data: None }] };
    let users = get_users(&Vec::new(), &sessions);
    assert!(users.is_empty());
}

#[test]
fn groups_of_local_user() {
    let pages = vec![AccountPage {
        status: NERR_SUCCESS,
        entries: vec![local_entry("A", 1, Some("A"))],
    }];
    let users = get_users(&pages, &no_sessions());
    let lookup = GroupLookup {
        status: NERR_SUCCESS,
        entries: vec![GroupEntry { name: wide("Users") }, GroupEntry { name: wide("Admins") }],
    };
    let groups = users[0].groups(&lookup);
    assert_eq!(groups.len(), 2);
    assert_eq!(groups[0].name, "Users");
    assert_eq!(groups[0].id, 0);
    assert_eq!(groups[1].name, "Admins");
    // A failed lookup yields an empty list.
    let failed = GroupLookup { status: ERROR_ACCESS_DENIED, entries: vec![GroupEntry {
        name: wide("Users"),
    }] };
    assert!(users[0].groups(&failed).is_empty());
}

#[test]
fn groups_of_session_user_always_empty() {
    let sessions = SessionList { ok: true, sessions: vec![session_record(4, 2, Some("S"))] };
    let users = get_users(&Vec::new(), &sessions);
    let lookup = GroupLookup {
        status: NERR_SUCCESS,
        entries: vec![GroupEntry { name: wide("Users") }],
    };
    assert!(users[0].groups(&lookup).is_empty());
}

#[test]
fn group_id_is_placeholder() {
    let pages = vec![AccountPage {
        status: NERR_SUCCESS,
        entries: vec![local_entry("A", 1, Some("A"))],
    }];
    let users = get_users(&pages, &no_sessions());
    assert_eq!(users[0].group_id(), 0);
}

#[test]
fn more_pages_only_on_more_data() {
    assert!(more_pages(ERROR_MORE_DATA));
    assert!(!more_pages(NERR_SUCCESS));
    assert!(!more_pages(ERROR_ACCESS_DENIED));
}

#[test]
fn sid_parse_and_compare() {
    let b = sid_bytes(&[21, 4242, 7]);
    let s = Sid::from_bytes(&b).unwrap();
    assert_eq!(s.revision, 1);
    assert_eq!(s.authority, 5);
    assert_eq!(s.subauthorities, vec![21, 4242, 7]);
    let again = Sid::from_bytes(&b).unwrap();
    assert!(s.same_as(&again));
    assert!(s.same_as(&s.duplicate()));
    let other = Sid::from_bytes(&sid_bytes(&[21, 4242, 8])).unwrap();
    assert!(!s.same_as(&other));
    let shorter = Sid::from_bytes(&sid_bytes(&[21, 4242])).unwrap();
    assert!(!s.same_as(&shorter));
}

#[test]
fn sid_rejects_malformed_structures() {
    assert!(Sid::from_bytes(&[]).is_none());
    assert!(Sid::from_bytes(&[1, 0, 0, 0, 0, 0, 0]).is_none()); // truncated
    let mut wrong_rev = sid_bytes(&[21]);
    wrong_rev[0] = 2;
    assert!(Sid::from_bytes(&wrong_rev).is_none());
    let mut too_many = sid_bytes(&[21]);
    too_many[1] = 16; // above the documented maximum
    assert!(Sid::from_bytes(&too_many).is_none());
    let mut wrong_len = sid_bytes(&[21]);
    wrong_len.push(0); // length does not match the count
    assert!(Sid::from_bytes(&wrong_len).is_none());
}

#[test]
fn sid_canonical_string_form() {
    let s = Sid::from_bytes(&sid_bytes(&[21, 4242, 7])).unwrap();
    assert_eq!(s.to_string_sid(), "S-1-5-21-4242-7");
    let no_subs = Sid::from_bytes(&sid_bytes(&[])).unwrap();
    assert_eq!(no_subs.to_string_sid(), "S-1-5");
    let wide_authority = Sid::from_bytes(&[1u8, 0, 1, 2, 3, 4, 5, 6]).unwrap();
    assert_eq!(wide_authority.to_string_sid(), "S-1-1108152157446");
    let zero = Sid::from_bytes(&[1u8, 1, 0, 0, 0, 0, 0, 0, 0, 0, 0, 0]).unwrap();
    assert_eq!(zero.to_string_sid(), "S-1-0-0");
}

#[test]
fn sid_authority_is_big_endian() {
    // Authority bytes 0x01 0x02 0x03 0x04 0x05 0x06, no subauthorities.
    let b = vec![1u8, 0, 1, 2, 3, 4, 5, 6];
    let s = Sid::from_bytes(&b).unwrap();
    assert_eq!(s.authority, 0x0102_0304_0506);
}

#[test]
fn net_api_buffer_scope() {
    let mut b = NetApiBuffer::new();
    // A never-filled slot performs no release call.
    assert!(b.release().is_none());
    b.inner_mut(vec![1, 2, 3]);
    assert_eq!(b.bytes(), &vec![1, 2, 3]);
    // The block leaves the wrapper exactly once.
    assert_eq!(b.release(), Some(vec![1, 2, 3]));
    assert!(b.release().is_none());
}

#[test]
fn lsa_buffer_scope() {
    let mut b = LsaBuffer::new();
    assert!(b.release().is_none());
    b.inner_mut(vec![9]);
    assert_eq!(b.bytes(), &vec![9]);
    assert_eq!(b.release(), Some(vec![9]));
    assert!(b.release().is_none());
}
