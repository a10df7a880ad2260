use aether_matrix::muyu::logic::{
    apply_hit, calculate_combo, combo_multiplier, critical_from_draw, drop_from_draw, plan_hit, title_condition_met,
    titles_to_unlock, DropTable, HitPlan, MuyuLogic,
};
use aether_matrix::muyu::models::{ConditionKind, HitResult, MeritRecord, Rarity, Title};
use aether_matrix::muyu::views::{hit_message, render_hit_result, short_user_id};

const SECOND: i64 = 1_000_000_000;

fn record(combo: i32, last_hit: Option<i64>) -> MeritRecord {
    MeritRecord {
        user_id: "@u:x".to_string(),
        room_id: "!r:x".to_string(),
        merit_total: 10,
        merit_today: 3,
        hits_today: 3,
        last_hit,
        combo,
        max_combo: combo,
        critical_count: 0,
        consecutive_days: 1,
        last_hit_date: None,
    }
}

fn title(kind: ConditionKind, value: i64) -> Title {
    Title {
        id: 1,
        name: "t".to_string(),
        description: None,
        icon: None,
        condition_kind: kind,
        condition_value: value,
        rarity: Rarity::Common,
    }
}

#[test]
fn cooldown_refuses_fast_knocks_per_user_and_room() {
    let mut logic = MuyuLogic::new();
    assert!(logic.try_hit("@a:x", "!r", 1_000_000_000));
    assert!(!logic.try_hit("@a:x", "!r", 1_499_999_999));
    assert!(logic.try_hit("@b:x", "!r", 1_000_000_001));
    assert!(logic.try_hit("@a:x", "!other", 1_000_000_001));
    assert!(logic.try_hit("@a:x", "!r", 1_500_000_000));
    assert!(!logic.try_hit("@a:x", "!r", 1_600_000_000));
}

#[test]
fn combo_continues_within_a_minute_and_restarts_after() {
    assert_eq!(calculate_combo(&None, 0), (1, false));
    let rec = Some(record(4, Some(100 * SECOND)));
    assert_eq!(calculate_combo(&rec, 160 * SECOND), (5, false));
    assert_eq!(calculate_combo(&rec, 161 * SECOND - 1), (5, false));
    assert_eq!(calculate_combo(&rec, 161 * SECOND), (1, true));
    let never = Some(record(7, None));
    assert_eq!(calculate_combo(&never, 0), (8, false));
}

#[test]
fn multiplier_steps() {
    assert_eq!(combo_multiplier(1), 10);
    assert_eq!(combo_multiplier(4), 10);
    assert_eq!(combo_multiplier(5), 15);
    assert_eq!(combo_multiplier(19), 15);
    assert_eq!(combo_multiplier(20), 30);
}

#[test]
fn merit_of_a_knock() {
    let plan = plan_hit(&None, 0, false);
    assert_eq!(
        plan,
        HitPlan { new_combo: 1, reset_combo: false, is_critical: false, combo_multiplier_tenths: 10, merit_gained: 1 }
    );
    let rec = Some(record(4, Some(0)));
    let plan = plan_hit(&rec, SECOND, false);
    assert_eq!(plan.combo_multiplier_tenths, 15);
    assert_eq!(plan.merit_gained, 1);
    let plan = plan_hit(&rec, SECOND, true);
    assert_eq!(plan.merit_gained, 150);
    let rec = Some(record(19, Some(0)));
    assert_eq!(plan_hit(&rec, SECOND, false).merit_gained, 3);
    assert_eq!(plan_hit(&rec, SECOND, true).merit_gained, 300);
}

#[test]
fn chance_thresholds() {
    assert!(critical_from_draw(0));
    assert!(critical_from_draw(99));
    assert!(!critical_from_draw(100));
    assert!(drop_from_draw(false, 999));
    assert!(!drop_from_draw(false, 1000));
    assert!(drop_from_draw(true, 4999));
    assert!(!drop_from_draw(true, 5000));
}

#[test]
fn drop_table_picks_by_cumulative_weight() {
    let table = DropTable::default();
    assert_eq!(table.total(), 200);
    assert_eq!(table.pick(0).name, "木鱼屑");
    assert_eq!(table.pick(59).name, "木鱼屑");
    assert_eq!(table.pick(60).name, "香灰");
    assert_eq!(table.pick(120).name, "佛珠");
    assert_eq!(table.pick(196).name, "舍利子");
    assert_eq!(table.pick(199).name, "佛光");
    assert_eq!(table.pick(199).rarity, Rarity::Legendary);
    let rolled = table.roll();
    assert!(rolled.weight > 0);
}

#[test]
fn titles_unlock_by_condition() {
    let mut rec = record(5, None);
    rec.merit_total = 100;
    rec.critical_count = 2;
    assert!(title_condition_met(&rec, &title(ConditionKind::TotalMerit, 100)));
    assert!(!title_condition_met(&rec, &title(ConditionKind::TotalMerit, 101)));
    assert!(title_condition_met(&rec, &title(ConditionKind::Combo, 5)));
    assert!(!title_condition_met(&rec, &title(ConditionKind::CriticalHits, 3)));
    let titles = vec![
        title(ConditionKind::DailyHits, 3),
        title(ConditionKind::DailyHits, 4),
        title(ConditionKind::ConsecutiveDays, 1),
    ];
    assert_eq!(titles_to_unlock(&rec, &titles), vec![0, 2]);
}

#[test]
fn kinds_and_rarities_round_trip() {
    for k in [
        ConditionKind::TotalMerit,
        ConditionKind::DailyHits,
        ConditionKind::Combo,
        ConditionKind::CriticalHits,
        ConditionKind::ConsecutiveDays,
    ] {
        assert_eq!(ConditionKind::parse(k.as_str()), Ok(k));
    }
    assert_eq!(ConditionKind::parse("nope"), Err("Unknown condition kind: nope".to_string()));
    for r in [Rarity::Common, Rarity::Rare, Rarity::Epic, Rarity::Legendary] {
        assert_eq!(Rarity::parse(r.as_str()), Ok(r));
    }
    assert_eq!(Rarity::parse("mythic"), Err("Unknown rarity: mythic".to_string()));
    assert_eq!(Rarity::Epic.display_name(), "史诗");
    assert_eq!(Rarity::Rare.color(), "#4a90d9");
}

#[test]
fn knock_messages() {
    let plan = plan_hit(&Some(record(4, Some(0))), SECOND, false);
    let result = HitResult::from_plan(&plan, 42, None, vec![]);
    assert_eq!(
        render_hit_result(&result),
        "<blockquote><b>🪘💥 连击 x5</b><br>+1 功德（连击加成 ×1.5）  |  累计：42 功德</blockquote>"
    );
    assert_eq!(hit_message(&result), render_hit_result(&result));
    let refused = HitResult::cooldown();
    assert_eq!(hit_message(&refused), "<blockquote><b>⚠ 敲得太快了，请稍后再试~</b></blockquote>");
    assert_eq!(short_user_id("@alice:matrix.org"), "alice");
}

#[test]
fn each_item_is_picked_by_as_many_draws_as_its_weight() {
    let table = DropTable::default();
    let mut counts: Vec<(String, u32, u32)> = Vec::new();
    for d in 0..table.total() {
        let def = table.pick(d);
        match counts.iter_mut().find(|(n, _, _)| *n == def.name) {
            Some(entry) => entry.2 += 1,
            None => counts.push((def.name.clone(), def.weight, 1)),
        }
    }
    assert_eq!(counts.len(), 8);
    for (name, weight, count) in counts {
        assert_eq!(weight, count, "{}", name);
    }
}

#[test]
fn knock_adds_its_merit_to_the_record() {
    let plan = plan_hit(&None, 0, false);
    let first = apply_hit(&None, "@u:x", "!r:x", &plan, 5 * SECOND, 100);
    assert_eq!(first.merit_total, plan.merit_gained);
    assert_eq!((first.merit_today, first.hits_today, first.consecutive_days), (1, 1, 1));
    assert_eq!(first.last_hit, Some(5 * SECOND));
    assert_eq!(first.last_hit_date, Some(100));

    // Same day: today's counters add up.
    let mut before = record(4, Some(0));
    before.last_hit_date = Some(100);
    let plan = plan_hit(&Some(before.clone()), 10 * SECOND, true);
    let after = apply_hit(&Some(before.clone()), "@u:x", "!r:x", &plan, 10 * SECOND, 100);
    assert_eq!(after.merit_total, before.merit_total + plan.merit_gained);
    assert_eq!(after.merit_today, before.merit_today + plan.merit_gained);
    assert_eq!(after.hits_today, 4);
    assert_eq!(after.combo, 5);
    assert_eq!(after.max_combo, 5);
    assert_eq!(after.critical_count, 1);
    assert_eq!(after.consecutive_days, 1);

    // A new day: today's counters start again and a day is added.
    let after = apply_hit(&Some(before.clone()), "@u:x", "!r:x", &plan, 10 * SECOND, 101);
    assert_eq!(after.merit_total, before.merit_total + plan.merit_gained);
    assert_eq!(after.merit_today, plan.merit_gained);
    assert_eq!(after.hits_today, 1);
    assert_eq!(after.consecutive_days, 2);
    assert_eq!(after.last_hit_date, Some(101));
}
