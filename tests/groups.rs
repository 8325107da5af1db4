use whitenoise_cli::groups::{
    parse_member_list, plan_group, select_group_relays, resolve_dm_group, DmResolution, DmSearch, DmStep, GroupData, GroupId,
    GroupManager, GroupRecord, GroupRelays, GroupState, GroupType, MessageData,
};

const ALICE: &str = "1111111111111111111111111111111111111111111111111111111111111111";
const BOB: &str = "2222222222222222222222222222222222222222222222222222222222222222";
const CAROL: &str = "3333333333333333333333333333333333333333333333333333333333333333";

fn record(id: u8, group_type: GroupType) -> GroupRecord {
    GroupRecord {
        mls_group_id: GroupId::from_slice(&[id]),
        nostr_group_id: vec![id, id],
        name: format!("g{}", id),
        description: String::new(),
        admin_pubkeys: vec![],
        last_message_id: None,
        last_message_at: None,
        group_type,
        epoch: 0,
        state: GroupState::Active,
    }
}

fn members(keys: &[&str]) -> Vec<String> {
    keys.iter().map(|k| k.to_string()).collect()
}

/// Drives a lookup to its end, answering member queries from `answer`.
fn run_lookup(groups: &Vec<GroupRecord>, answer: &dyn Fn(&[u8]) -> Vec<String>) -> (Option<Vec<u8>>, usize) {
    let mut search = DmSearch::new(groups, ALICE, BOB);
    let mut fetches = 0;
    loop {
        match search.next_step() {
            DmStep::FetchMembers(id) => {
                fetches += 1;
                let m = answer(id.as_slice());
                search.members_fetched(&m);
            }
            DmStep::Found(id) => return (Some(id.as_slice().to_vec()), fetches),
            DmStep::NotFound => return (None, fetches),
        }
    }
}

fn sample_answers(id: &[u8]) -> Vec<String> {
    match id[0] {
        2 => members(&[ALICE, CAROL]),
        3 => members(&[ALICE, BOB, CAROL]),
        4 => members(&[BOB, ALICE]),
        5 => members(&[ALICE, BOB]),
        _ => members(&[]),
    }
}

#[test]
fn dm_lookup_finds_first_pair_group() {
    let groups = vec![
        record(1, GroupType::Group),
        record(2, GroupType::DirectMessage),
        record(3, GroupType::DirectMessage),
        record(4, GroupType::DirectMessage),
        record(5, GroupType::DirectMessage),
    ];
    let (found, fetches) = run_lookup(&groups, &sample_answers);
    assert_eq!(found, Some(vec![4]));
    assert_eq!(fetches, 3);
}

#[test]
fn dm_lookup_is_deterministic() {
    let groups = vec![
        record(5, GroupType::DirectMessage),
        record(4, GroupType::DirectMessage),
        record(1, GroupType::Group),
    ];
    let first = run_lookup(&groups, &sample_answers).0;
    let second = run_lookup(&groups, &sample_answers).0;
    assert_eq!(first, Some(vec![5]));
    assert_eq!(first, second);
}

#[test]
fn dm_lookup_skips_multi_party_groups_and_reports_absence() {
    let groups = vec![record(5, GroupType::Group), record(2, GroupType::DirectMessage)];
    let (found, fetches) = run_lookup(&groups, &sample_answers);
    assert_eq!(found, None);
    assert_eq!(fetches, 1);
    let empty: Vec<GroupRecord> = vec![];
    assert_eq!(run_lookup(&empty, &sample_answers), (None, 0));
}

#[test]
fn get_or_create_is_idempotent() {
    let mut groups = vec![record(2, GroupType::DirectMessage)];
    let (found, _) = run_lookup(&groups, &sample_answers);
    assert_eq!(found, None);
    let cached = vec!["wss://relay.damus.io".to_string()];
    match resolve_dm_group(None, ALICE, BOB, &cached) {
        DmResolution::Create(plan) => {
            assert_eq!(plan.name, "DM with 22222222");
            assert_eq!(plan.description, "Direct message conversation");
            assert_eq!(plan.members, members(&[BOB]));
            assert_eq!(plan.admins, members(&[ALICE, BOB]));
            assert!(matches!(plan.relays, GroupRelays::Cached(ref v) if v == &cached));
        }
        other => panic!("unexpected {:?}", other),
    }
    // The engine creates group 9, whose members are the creator and the peer.
    groups.push(record(9, GroupType::DirectMessage));
    let answer = |id: &[u8]| if id[0] == 9 { members(&[ALICE, BOB]) } else { sample_answers(id) };
    let (again, _) = run_lookup(&groups, &answer);
    assert_eq!(again, Some(vec![9]));
    match resolve_dm_group(Some(GroupId::from_slice(&[9])), ALICE, BOB, &cached) {
        DmResolution::Existing(id) => assert_eq!(id.as_slice(), &[9]),
        other => panic!("unexpected {:?}", other),
    }
}

#[test]
fn group_relays_fall_back_to_network_when_cache_empty() {
    assert!(matches!(select_group_relays(&vec![]), GroupRelays::FetchFromNetwork));
    let cached = vec!["wss://nos.lol".to_string()];
    assert!(matches!(select_group_relays(&cached), GroupRelays::Cached(ref v) if v == &cached));
}

fn message(n: u64) -> MessageData {
    MessageData {
        id: format!("m{}", n),
        pubkey: ALICE.to_string(),
        content: format!("message {}", n),
        created_at: n,
        is_reply: false,
        reply_to_id: None,
        is_deleted: false,
        kind: 9,
    }
}

#[test]
fn history_returns_last_messages_in_order() {
    let all: Vec<MessageData> = (1..=12).map(message).collect();
    let window = GroupManager::fetch_history(all.clone(), 10);
    let ids: Vec<u64> = window.iter().map(|m| m.created_at).collect();
    assert_eq!(ids, (3..=12).collect::<Vec<u64>>());
    assert_eq!(GroupManager::fetch_history(all.clone(), 20).len(), 12);
    assert!(GroupManager::fetch_history(all, 0).is_empty());
}

#[test]
fn group_ids_as_hex() {
    let id = GroupId::from_slice(&[0xab, 0x01, 0xff]);
    assert_eq!(GroupManager::group_id_to_string(&id), "ab01ff");
    let parsed = GroupManager::group_id_from_string("AB01ff").unwrap();
    assert_eq!(parsed.as_slice(), &[0xab, 0x01, 0xff]);
    assert!(GroupManager::group_id_from_string("abc").is_err());
    assert!(GroupManager::group_id_from_string("zz").is_err());
}

#[test]
fn group_data_renders_ids_and_snapshot_tracks_groups() {
    let data = GroupData::from_group(record(0x1f, GroupType::DirectMessage));
    assert_eq!(data.mls_group_id, "1f");
    assert_eq!(data.nostr_group_id, "1f1f");
    assert_eq!(data.name, "g31");
    let mut manager = GroupManager::new();
    assert!(manager.get_groups().is_empty());
    manager.refresh_groups(vec![data.clone()]);
    manager.record_created(GroupData::from_group(record(2, GroupType::Group)));
    let ids: Vec<&str> = manager.get_groups().iter().map(|g| g.mls_group_id.as_str()).collect();
    assert_eq!(ids, vec!["1f", "02"]);
}

#[test]
fn member_lists_split_on_commas_and_trim() {
    assert_eq!(parse_member_list(" a , b,c "), members(&["a", "b", "c"]));
    assert_eq!(parse_member_list("single"), members(&["single"]));
    assert_eq!(parse_member_list("a,,b"), members(&["a", "", "b"]));
    assert_eq!(parse_member_list(""), members(&[""]));
}

#[test]
fn group_plan_makes_creator_admin() {
    let plan = plan_group(ALICE, members(&[BOB, CAROL]), "team".to_string(), None, &vec![]);
    assert_eq!(plan.admins, members(&[ALICE]));
    assert_eq!(plan.members, members(&[BOB, CAROL]));
    assert_eq!(plan.description, "");
    assert!(matches!(plan.relays, GroupRelays::FetchFromNetwork));
    let plan = plan_group(ALICE, vec![], "t".to_string(), Some("d".to_string()), &members(&["wss://x.example"]));
    assert_eq!(plan.description, "d");
    assert!(matches!(plan.relays, GroupRelays::Cached(_)));
}
