use pikaboo::background::{
    first_action, reinstate, remove_role, renew_role, resume, scan_custom_roles, Charge,
    RoleAction, RoleAnswer, RoleStep,
};
use pikaboo::cache::Cache;
use pikaboo::consts::MONTH_IN_SEC;
use pikaboo::energy::EnergyBalance;
use pikaboo::roles::{is_lapsed, CustomRole, RoleIcon, UserCustomRole};
use pikaboo::serving::{Answer, Outcome, Request, Step};
use std::collections::{HashMap, HashSet};

const T: u64 = 1_700_000_000;

fn grant(role_id: u64, user_id: u64, expires_at: Option<u64>, auto_renewal: bool) -> CustomRole {
    CustomRole {
        role_id,
        user_id,
        auto_renewal,
        expires_at,
        name: String::from("role"),
        color: 0x00ff_be98,
        icon: RoleIcon::Absent,
        mentionable: false,
    }
}

/// The host and the store, with what was asked of them.
struct World {
    balances: HashMap<u64, u64>,
    host_fails: bool,
    store_fails: bool,
    persist_fails: bool,
    host_deletes: Vec<u64>,
    store_deletes: Vec<u64>,
    persisted: Vec<CustomRole>,
}

impl World {
    fn new() -> World {
        World {
            balances: HashMap::new(),
            host_fails: false,
            store_fails: false,
            persist_fails: false,
            host_deletes: Vec::new(),
            store_deletes: Vec::new(),
            persisted: Vec::new(),
        }
    }

    fn consume_energy(&mut self, user_id: u64, amount: u64) -> bool {
        match self.balances.get_mut(&user_id) {
            Some(held) if *held >= amount => {
                *held -= amount;
                true
            }
            _ => false,
        }
    }
}

/// One pass of the reconciler, which reports what went wrong on the way.
fn tick(cache: &mut Cache, world: &mut World, renew_fee: u64, now: u64) -> Vec<String> {
    let mut failures = Vec::new();
    let expired = scan_custom_roles(&mut cache.user_custom_roles, &cache.boosters, now);
    for role in expired {
        let mut action = first_action(&role, renew_fee);
        let outcome = loop {
            let answer = match action {
                RoleAction::Charge { user_id, amount } => {
                    let mut step = cache.energy_balance.begin(Request::Consume { user_id, amount });
                    if let Step::Take { user_id, amount } = step {
                        let taken = world.consume_energy(user_id, amount);
                        step = cache
                            .energy_balance
                            .resume(Request::Consume { user_id, amount }, Answer::Taken(taken));
                    }
                    RoleAnswer::Charged(match step {
                        Step::Done(Outcome::Consumed(true)) => Charge::Paid,
                        Step::Done(Outcome::Consumed(false)) => Charge::Refused,
                        _ => Charge::Failed,
                    })
                }
                RoleAction::Persist(renewed) => {
                    let outcome = if world.persist_fails {
                        Err(String::from("store is away"))
                    } else {
                        world.persisted.push(renewed.clone());
                        Ok(())
                    };
                    RoleAnswer::Persisted { role: renewed, outcome }
                }
                RoleAction::Remove { role_id } => {
                    world.host_deletes.push(role_id);
                    world.store_deletes.push(role_id);
                    RoleAnswer::Removed {
                        host: if world.host_fails {
                            Err(String::from("Unknown Role"))
                        } else {
                            Ok(())
                        },
                        store: if world.store_fails {
                            Err(String::from("connection reset"))
                        } else {
                            Ok(())
                        },
                    }
                }
            };
            match resume(&mut cache.user_custom_roles, &role, answer, now) {
                RoleStep::Next(next) => action = next,
                RoleStep::Done(done) => break done,
            }
        };
        if let Err(report) = outcome {
            failures.push(report);
        }
    }
    failures
}

#[test]
fn renewal_with_enough_energy_moves_the_deadline() {
    let mut cache = Cache::new(vec![grant(900, 1, Some(T - 1), true)]);
    let mut world = World::new();
    world.balances.insert(1, 60);

    let failures = tick(&mut cache, &mut world, 50, T);

    assert!(failures.is_empty());
    let kept = cache.user_custom_roles.get(1).unwrap();
    assert_eq!(kept.expires_at, Some(T + 2_592_000));
    assert_eq!(kept, grant(900, 1, Some(T + 2_592_000), true));
    assert_eq!(world.persisted, vec![grant(900, 1, Some(T + 2_592_000), true)]);
    assert!(world.host_deletes.is_empty());
    assert!(world.store_deletes.is_empty());
    assert_eq!(world.balances[&1], 10);
}

#[test]
fn renewal_is_paid_from_a_resident_balance() {
    let mut cache = Cache::new(vec![grant(900, 1, Some(T - 1), true)]);
    assert_eq!(cache.energy_balance.fetch(1, 60), None);
    let mut world = World::new();

    let failures = tick(&mut cache, &mut world, 50, T);

    assert!(failures.is_empty());
    assert_eq!(cache.user_custom_roles.get(1).unwrap().expires_at, Some(T + MONTH_IN_SEC));
    let record = cache.energy_balance.peek(1).unwrap();
    assert_eq!(record.energy, 10);
    assert!(record.is_dirty);
}

#[test]
fn renewal_without_enough_energy_removes_and_reports_the_host() {
    let mut cache =
        Cache::new(vec![grant(900, 1, Some(T - 1), true), grant(901, 2, Some(T - 5), true)]);
    let mut world = World::new();
    world.balances.insert(1, 10);
    world.balances.insert(2, 10);
    world.host_fails = true;

    let failures = tick(&mut cache, &mut world, 50, T);

    assert_eq!(failures.len(), 2);
    let mut failures = failures;
    failures.sort();
    assert_eq!(failures[0], "Fail to remove role <900>:\n- Discord: Unknown Role\n");
    assert_eq!(failures[1], "Fail to remove role <901>:\n- Discord: Unknown Role\n");
    let mut host_deletes = world.host_deletes.clone();
    host_deletes.sort();
    assert_eq!(host_deletes, vec![900, 901]);
    let mut store_deletes = world.store_deletes.clone();
    store_deletes.sort();
    assert_eq!(store_deletes, vec![900, 901]);
    assert_eq!(cache.user_custom_roles.get(1), None);
    assert_eq!(cache.user_custom_roles.get(2), None);
    assert_eq!(world.balances[&1], 10);
    assert!(world.persisted.is_empty());
}

#[test]
fn grant_off_renewal_is_removed_without_a_charge() {
    let mut cache = Cache::new(vec![grant(900, 1, Some(T - 1), false)]);
    let mut world = World::new();
    world.balances.insert(1, 1_000);

    let failures = tick(&mut cache, &mut world, 50, T);

    assert!(failures.is_empty());
    assert_eq!(world.host_deletes, vec![900]);
    assert_eq!(world.store_deletes, vec![900]);
    assert_eq!(world.balances[&1], 1_000);
    assert_eq!(cache.user_custom_roles.get(1), None);
}

#[test]
fn grant_that_could_not_be_persisted_stays_out() {
    let mut cache = Cache::new(vec![grant(900, 1, Some(T - 1), true)]);
    let mut world = World::new();
    world.balances.insert(1, 60);
    world.persist_fails = true;

    let failures = tick(&mut cache, &mut world, 50, T);

    assert_eq!(failures, vec![String::from("store is away")]);
    assert_eq!(cache.user_custom_roles.get(1), None);
    assert!(world.host_deletes.is_empty());
}

#[test]
fn booster_is_never_extracted() {
    let mut cache =
        Cache::new(vec![grant(900, 1, Some(T - 1), false), grant(901, 2, Some(T - 1), false)]);
    cache.boosters.insert(1);
    let mut world = World::new();

    for round in 0..25u64 {
        let failures = tick(&mut cache, &mut world, 50, T + round * 3_600);
        assert!(failures.is_empty());
        assert_eq!(cache.user_custom_roles.get(1), Some(grant(900, 1, Some(T - 1), false)));
    }
    assert_eq!(world.host_deletes, vec![901]);

    cache.boosters.remove(&1);
    let failures = tick(&mut cache, &mut world, 50, T);
    assert!(failures.is_empty());
    assert_eq!(cache.user_custom_roles.get(1), None);
    assert_eq!(world.host_deletes, vec![901, 900]);
}

#[test]
fn grant_without_deadline_and_grant_not_yet_due_stay() {
    let mut cache = Cache::new(vec![
        grant(900, 1, None, false),
        grant(901, 2, Some(T), false),
        grant(902, 3, Some(T + 1), true),
        grant(903, 4, Some(T - 1), false),
    ]);
    let expired = scan_custom_roles(&mut cache.user_custom_roles, &cache.boosters, T);
    assert_eq!(expired, vec![grant(903, 4, Some(T - 1), false)]);
    let mut owners = cache.user_custom_roles.owners();
    owners.sort();
    assert_eq!(owners, vec![1, 2, 3]);
}

#[test]
fn is_lapsed_needs_a_deadline_in_the_past_and_no_boost() {
    let mut boosters = HashSet::new();
    assert!(is_lapsed(&grant(1, 1, Some(9), false), &boosters, 10));
    assert!(!is_lapsed(&grant(1, 1, Some(10), false), &boosters, 10));
    assert!(!is_lapsed(&grant(1, 1, None, false), &boosters, 10));
    boosters.insert(1);
    assert!(!is_lapsed(&grant(1, 1, Some(9), false), &boosters, 10));
    assert!(is_lapsed(&grant(1, 2, Some(9), false), &boosters, 10));
}

#[test]
fn first_action_charges_only_grants_on_renewal() {
    assert_eq!(
        first_action(&grant(900, 1, Some(1), true), 50),
        RoleAction::Charge { user_id: 1, amount: 50 }
    );
    assert_eq!(first_action(&grant(900, 1, Some(1), false), 50), RoleAction::Remove { role_id: 900 });
}

#[test]
fn renew_role_persists_only_what_was_paid() {
    let role = grant(900, 1, Some(1), true);
    assert_eq!(
        renew_role(role.clone(), Charge::Paid, 100),
        RoleAction::Persist(grant(900, 1, Some(100 + 30 * 24 * 60 * 60), true))
    );
    assert_eq!(renew_role(role.clone(), Charge::Refused, 100), RoleAction::Remove { role_id: 900 });
    assert_eq!(renew_role(role, Charge::Failed, 100), RoleAction::Remove { role_id: 900 });
}

#[test]
fn remove_role_names_every_failure_in_one_report() {
    assert_eq!(remove_role(5, Ok(()), Ok(())), Ok(()));
    assert_eq!(
        remove_role(5, Err(String::from("gone")), Ok(())),
        Err(String::from("Fail to remove role <5>:\n- Discord: gone\n"))
    );
    assert_eq!(
        remove_role(18_446_744_073_709_551_615, Ok(()), Err(String::from("busy"))),
        Err(String::from("Fail to remove role <18446744073709551615>:\n- Database: busy\n"))
    );
    assert_eq!(
        remove_role(1_020, Err(String::from("gone")), Err(String::from("busy"))),
        Err(String::from("Fail to remove role <1020>:\n- Discord: gone\n- Database: busy\n"))
    );
    assert_eq!(
        remove_role(0, Err(String::new()), Ok(())),
        Err(String::from("Fail to remove role <0>:\n- Discord: \n"))
    );
}

#[test]
fn directory_keeps_one_grant_per_user() {
    let mut directory = UserCustomRole::new(vec![
        grant(900, 1, Some(5), false),
        grant(901, 2, None, true),
        grant(902, 1, Some(6), true),
    ]);
    assert_eq!(directory.get(1), Some(grant(902, 1, Some(6), true)));
    assert_eq!(directory.get(2), Some(grant(901, 2, None, true)));
    assert_eq!(directory.get(3), None);

    directory.update(grant(903, 3, None, false));
    directory.update(grant(904, 2, Some(1), false));
    assert_eq!(directory.get(2), Some(grant(904, 2, Some(1), false)));
    assert_eq!(directory.get(3), Some(grant(903, 3, None, false)));

    assert_eq!(directory.remove(1), Some(grant(902, 1, Some(6), true)));
    assert_eq!(directory.remove(1), None);
    assert_eq!(directory.get(1), None);
    let mut owners = directory.owners();
    owners.sort();
    assert_eq!(owners, vec![2, 3]);
}

#[test]
fn new_cache_starts_cold_with_fifty_slots() {
    let cache = Cache::new(vec![grant(900, 1, None, false)]);
    assert_eq!(cache.energy_balance.len(), 0);
    assert_eq!(cache.energy_balance.capacity(), 50);
    assert!(cache.boosters.is_empty());
    assert_eq!(cache.user_custom_roles.get(1), Some(grant(900, 1, None, false)));
    let _: &EnergyBalance = &cache.energy_balance;
}

fn guild_role(id: u64, name: &str, color: u32, emoji: Option<&str>) -> pikaboo::roles::GuildRole {
    pikaboo::roles::GuildRole {
        id,
        name: name.to_string(),
        color,
        icon: None,
        unicode_emoji: emoji.map(|emoji| emoji.to_string()),
        mentionable: true,
    }
}

#[test]
fn display_takes_the_last_role_of_the_same_id() {
    let roles = vec![
        guild_role(900, "first", 1, Some("a")),
        guild_role(901, "other", 2, None),
        guild_role(900, "last", 3, None),
    ];
    let shown = pikaboo::roles::display(&grant(900, 1, Some(5), true), &roles);
    assert_eq!(shown.name, "last");
    assert_eq!(shown.color, 3);
    assert_eq!(shown.icon, RoleIcon::Absent);
    assert!(shown.mentionable);
    assert_eq!((shown.role_id, shown.user_id, shown.expires_at, shown.auto_renewal), (900, 1, Some(5), true));

    let untouched = pikaboo::roles::display(&grant(902, 1, Some(5), true), &roles);
    assert_eq!(untouched, grant(902, 1, Some(5), true));
}

#[test]
fn display_prefers_the_image_to_the_emoji() {
    let hash = pikaboo::roles::IconHash { animated: false, bytes: [7; 16] };
    let mut role = guild_role(900, "both", 1, Some("a"));
    role.icon = Some(hash);
    let shown = pikaboo::roles::display(&grant(900, 1, None, false), &vec![role]);
    assert_eq!(shown.icon, RoleIcon::Custom(hash));

    let role = guild_role(900, "emoji", 1, Some("a"));
    let shown = pikaboo::roles::display(&grant(900, 1, None, false), &vec![role]);
    assert_eq!(shown.icon, RoleIcon::Unicode("a".to_string()));
}

#[test]
fn sync_display_brings_each_grant_in_line_with_its_role() {
    let mut directory = UserCustomRole::new(vec![
        grant(900, 1, Some(5), false),
        grant(901, 2, None, true),
        grant(902, 3, None, true),
    ]);
    directory.sync_display(&vec![
        guild_role(901, "blue", 0x0000ff, Some("b")),
        guild_role(900, "red", 0xff0000, None),
        guild_role(777, "stray", 1, None),
    ]);
    let red = directory.get(1).unwrap();
    assert_eq!((red.name.as_str(), red.color, red.mentionable), ("red", 0xff0000, true));
    assert_eq!((red.role_id, red.expires_at, red.auto_renewal), (900, Some(5), false));
    let blue = directory.get(2).unwrap();
    assert_eq!((blue.name.as_str(), blue.color), ("blue", 0x0000ff));
    assert_eq!(blue.icon, RoleIcon::Unicode("b".to_string()));
    assert_eq!(directory.get(3), Some(grant(902, 3, None, true)));
    let mut owners = directory.owners();
    owners.sort();
    assert_eq!(owners, vec![1, 2, 3]);
}

#[test]
fn sync_display_changes_one_of_the_grants_that_share_a_role() {
    let mut directory =
        UserCustomRole::new(vec![grant(900, 1, None, false), grant(900, 2, None, false)]);
    directory.sync_display(&vec![guild_role(900, "red", 0xff0000, None)]);
    let names = [directory.get(1).unwrap().name, directory.get(2).unwrap().name];
    assert_eq!(names.iter().filter(|name| name.as_str() == "red").count(), 1);
    assert_eq!(names.iter().filter(|name| name.as_str() == "role").count(), 1);
}

#[test]
fn both_halves_of_a_removal_are_reported_together() {
    let mut cache = Cache::new(vec![grant(900, 1, Some(T - 1), false)]);
    let mut world = World::new();
    world.host_fails = true;
    world.store_fails = true;
    let failures = tick(&mut cache, &mut world, 50, T);
    assert_eq!(
        failures,
        vec![String::from(
            "Fail to remove role <900>:\n- Discord: Unknown Role\n- Database: connection reset\n"
        )]
    );
    assert_eq!(cache.user_custom_roles.get(1), None);
}

#[test]
fn reinstate_puts_back_only_what_the_store_took() {
    let mut directory = UserCustomRole::new(Vec::new());
    let role = grant(900, 1, Some(9), true);
    assert_eq!(reinstate(&mut directory, role.clone(), Err(String::from("no"))), Err(String::from("no")));
    assert_eq!(directory.get(1), None);
    assert_eq!(reinstate(&mut directory, role.clone(), Ok(())), Ok(()));
    assert_eq!(directory.get(1), Some(role));
}

#[test]
fn resume_follows_each_answer() {
    let mut directory = UserCustomRole::new(Vec::new());
    let role = grant(900, 1, Some(9), true);
    assert_eq!(
        resume(&mut directory, &role, RoleAnswer::Charged(Charge::Paid), 100),
        RoleStep::Next(RoleAction::Persist(grant(900, 1, Some(100 + 2_592_000), true)))
    );
    assert_eq!(
        resume(&mut directory, &role, RoleAnswer::Charged(Charge::Failed), 100),
        RoleStep::Next(RoleAction::Remove { role_id: 900 })
    );
    assert_eq!(directory.get(1), None);
    let renewed = grant(900, 1, Some(100 + 2_592_000), true);
    assert_eq!(
        resume(
            &mut directory,
            &role,
            RoleAnswer::Persisted { role: renewed.clone(), outcome: Ok(()) },
            100
        ),
        RoleStep::Done(Ok(()))
    );
    assert_eq!(directory.get(1), Some(renewed));
    assert_eq!(
        resume(
            &mut directory,
            &role,
            RoleAnswer::Removed { host: Ok(()), store: Err(String::from("busy")) },
            100
        ),
        RoleStep::Done(Err(String::from("Fail to remove role <900>:\n- Database: busy\n")))
    );
}
