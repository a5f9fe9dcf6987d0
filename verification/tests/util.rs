use pegboard::backoff::Backoff;
use pegboard::client_config::{BindIp, ClientConfig, Network, ReservedResources};
use pegboard::ctx::{GlobalError, GlobalErrorExt, OperationCtx, WorkflowError, OPERATION_TIMEOUT};
use pegboard::json::{is_value_subset, member, same_value, Number, Value};
use pegboard::location::format_location;
use pegboard::text::to_decimal;
use pegboard::time::{sleep_for, DurationToMillis, TimeError, TsToMillis};
use pegboard::util::{safe_slice, CleanExit, DEFAULT_TIMEOUT};

/// Moves both ends of a range back to the start of the character they fall into, by walking
/// over the characters of the string.
fn slice_by_walking(s: &str, start: usize, end: usize) -> &str {
    let adjusted_start =
        s.char_indices().take_while(|&(i, _)| i <= start).last().map(|(i, _)| i).unwrap_or(0);
    let adjusted_end =
        s.char_indices().take_while(|&(i, _)| i <= end).last().map(|(i, _)| i).unwrap_or(s.len());
    &s[adjusted_start..adjusted_end]
}

#[test]
fn safe_slice_cuts_at_character_starts() {
    assert_eq!(safe_slice("hello", 0, 3), "hel");
    assert_eq!(safe_slice("hello", 1, 4), "ell");
    assert_eq!(safe_slice("hello", 2, 2), "");
    assert_eq!(safe_slice("", 0, 0), "");
    assert_eq!(safe_slice("", 0, 10), "");
    assert_eq!(safe_slice("", 3, 10), "");
    // "é" takes two bytes, "✓" three and "𝄞" four.
    let s = "aé✓𝄞z";
    assert_eq!(safe_slice(s, 0, 1), "a");
    assert_eq!(safe_slice(s, 0, 2), "a");
    assert_eq!(safe_slice(s, 0, 3), "aé");
    assert_eq!(safe_slice(s, 2, 3), "é");
    assert_eq!(safe_slice(s, 2, 5), "é");
    assert_eq!(safe_slice(s, 2, 6), "é✓");
    assert_eq!(safe_slice(s, 4, 9), "✓");
    assert_eq!(safe_slice(s, 7, 10), "𝄞");
    assert_eq!(safe_slice(s, 9, 10), "𝄞");
}

#[test]
fn safe_slice_never_reaches_the_last_character() {
    assert_eq!(safe_slice("hello", 0, 5), "hell");
    assert_eq!(safe_slice("hello", 0, 500), "hell");
    assert_eq!(safe_slice("hello", 4, 5), "");
    assert_eq!(safe_slice("hello", 5, 9), "");
    assert_eq!(safe_slice("a", 0, 1), "");
    assert_eq!(safe_slice("héé", 0, usize::MAX), "hé");
}

#[test]
fn safe_slice_agrees_with_a_walk_over_the_characters() {
    let samples =
        ["", "a", "hello", "aé✓𝄞z", "éé", "𝄞", "✓a✓", "日本語のテキスト", "\u{0}\u{7f}\u{80}"];
    for s in samples {
        for start in 0..=s.len() + 2 {
            for end in start..=s.len() + 2 {
                let walked = slice_by_walking(s, start, end);
                assert_eq!(safe_slice(s, start, end), walked, "{s:?} {start} {end}");
            }
        }
    }
}

#[test]
fn clean_exit_is_one_value() {
    assert_eq!(CleanExit, CleanExit);
    assert_eq!(DEFAULT_TIMEOUT, 40 * 1000);
}

#[test]
fn to_decimal_agrees_with_to_string() {
    let large = [9_999, 10_000, 65_535, 99_999_999, 4_294_967_295, usize::MAX - 1, usize::MAX];
    for n in (0..=1200usize).chain(large) {
        assert_eq!(to_decimal(n), n.to_string());
    }
    assert_eq!(to_decimal(0), "0");
    assert_eq!(to_decimal(1_000_000), "1000000");
}

#[test]
fn format_location_lists_coordinates_in_braces() {
    assert_eq!(format_location(&[]), "{}");
    assert_eq!(format_location(&[0]), "{0}");
    assert_eq!(format_location(&[1, 2, 3]), "{1, 2, 3}");
    assert_eq!(format_location(&vec![10, 0, 255, 7]), "{10, 0, 255, 7}");
    assert_eq!(format_location(&[usize::MAX, 0]), format!("{{{}, 0}}", usize::MAX));
}

fn text(s: &str) -> Value {
    Value::String(s.to_string())
}

fn whole(n: u64) -> Value {
    Value::Number(Number::PosInt(n))
}

fn object(entries: Vec<(&str, Value)>) -> Value {
    Value::Object(entries.into_iter().map(|(k, v)| (k.to_string(), v)).collect())
}

#[test]
fn an_object_is_contained_in_one_with_more_keys() {
    let tags = object(vec![("client_id", text("c1")), ("kind", text("cmd")), ("n", whole(3))]);
    assert!(is_value_subset(&object(vec![]), &tags));
    assert!(is_value_subset(&object(vec![("client_id", text("c1"))]), &tags));
    assert!(is_value_subset(&object(vec![("n", whole(3)), ("client_id", text("c1"))]), &tags));
    assert!(is_value_subset(&tags, &tags));
    assert!(!is_value_subset(&object(vec![("client_id", text("c2"))]), &tags));
    assert!(!is_value_subset(&object(vec![("other", text("c1"))]), &tags));
    assert!(!is_value_subset(&tags, &object(vec![("client_id", text("c1"))])));
    assert!(!is_value_subset(&object(vec![("n", text("3"))]), &tags));
    assert!(!is_value_subset(&object(vec![]), &Value::Null));
    assert!(!is_value_subset(&Value::Null, &object(vec![])));
}

#[test]
fn objects_are_matched_all_the_way_down() {
    let inner = object(vec![("a", whole(1)), ("b", Value::Bool(true))]);
    let outer = object(vec![("x", inner), ("y", Value::Null)]);
    assert!(is_value_subset(&object(vec![("x", object(vec![("b", Value::Bool(true))]))]), &outer));
    assert!(is_value_subset(&object(vec![("x", object(vec![]))]), &outer));
    let differs = object(vec![("x", object(vec![("b", Value::Bool(false))]))]);
    assert!(!is_value_subset(&differs, &outer));
    assert!(!is_value_subset(&object(vec![("x", object(vec![("c", whole(1))]))]), &outer));
    assert!(is_value_subset(&object(vec![("y", Value::Null)]), &outer));
    assert!(!is_value_subset(&object(vec![("y", object(vec![]))]), &outer));
}

#[test]
fn arrays_are_matched_place_by_place_as_far_as_both_reach() {
    let long = Value::Array(vec![whole(1), whole(2), whole(3)]);
    let short = Value::Array(vec![whole(1), whole(2)]);
    assert!(is_value_subset(&short, &long));
    assert!(is_value_subset(&long, &short));
    assert!(is_value_subset(&Value::Array(vec![]), &long));
    assert!(is_value_subset(&long, &Value::Array(vec![])));
    assert!(!is_value_subset(&Value::Array(vec![whole(2)]), &long));
    assert!(!is_value_subset(&Value::Array(vec![whole(1), whole(3)]), &long));
    let of_objects = Value::Array(vec![object(vec![("a", whole(1)), ("b", whole(2))])]);
    assert!(is_value_subset(&Value::Array(vec![object(vec![("a", whole(1))])]), &of_objects));
    assert!(!is_value_subset(&of_objects, &Value::Array(vec![object(vec![("a", whole(1))])])));
    assert!(!is_value_subset(&Value::Array(vec![]), &object(vec![])));
}

#[test]
fn scalars_are_contained_in_their_equals_only() {
    assert!(is_value_subset(&Value::Null, &Value::Null));
    assert!(is_value_subset(&Value::Bool(false), &Value::Bool(false)));
    assert!(!is_value_subset(&Value::Bool(false), &Value::Bool(true)));
    assert!(is_value_subset(&text("a"), &text("a")));
    assert!(!is_value_subset(&text("a"), &text("ab")));
    assert!(!is_value_subset(&text("1"), &whole(1)));
    assert!(is_value_subset(&whole(1), &whole(1)));
    assert!(!is_value_subset(&whole(1), &Value::Number(Number::NegInt(-1))));
    assert!(!is_value_subset(&whole(1), &Value::Number(Number::Float(1.0f64.to_bits()))));
    let half = Value::Number(Number::Float(0.5f64.to_bits()));
    assert!(is_value_subset(&half, &Value::Number(Number::Float(0.5f64.to_bits()))));
    assert!(!is_value_subset(&half, &Value::Number(Number::Float(0.25f64.to_bits()))));
    assert!(!is_value_subset(&Value::Null, &Value::Bool(false)));
}

#[test]
fn same_value_takes_objects_as_maps_and_arrays_as_lists() {
    let a = object(vec![("x", whole(1)), ("y", Value::Array(vec![whole(1), whole(2)]))]);
    let b = object(vec![("y", Value::Array(vec![whole(1), whole(2)])), ("x", whole(1))]);
    assert!(same_value(&a, &b));
    assert!(same_value(&b, &a));
    assert!(!same_value(&a, &object(vec![("x", whole(1))])));
    assert!(!same_value(&object(vec![("x", whole(1))]), &a));
    let c = object(vec![("y", Value::Array(vec![whole(2), whole(1)])), ("x", whole(1))]);
    assert!(!same_value(&a, &c));
    assert!(!same_value(&Value::Array(vec![whole(1)]), &Value::Array(vec![whole(1), whole(2)])));
    assert!(same_value(&Value::Array(vec![]), &Value::Array(vec![])));
    assert!(!same_value(&Value::Array(vec![]), &object(vec![])));
}

#[test]
fn member_finds_an_entry_by_its_key() {
    let entries = vec![("a".to_string(), whole(1)), ("b".to_string(), whole(2))];
    assert!(matches!(member(&entries, "b"), Some(Value::Number(Number::PosInt(2)))));
    assert!(matches!(member(&entries, "a"), Some(Value::Number(Number::PosInt(1)))));
    assert!(member(&entries, "c").is_none());
    assert!(member(&entries, "").is_none());
}

#[test]
fn backoff_doubles_up_to_the_cap() {
    let mut backoff = Backoff::new(3, Some(5), 100, 1, 1_000);
    assert_eq!(backoff.tick_index(), 0);
    assert!(backoff.can_step());
    // With a noise of zero the waits are 100, 200, 400, 800, 800, 800.
    let mut times = Vec::new();
    while let Some(next) = backoff.advance(0) {
        times.push(next);
    }
    assert_eq!(times, vec![1_100, 1_300, 1_700, 2_500, 3_300, 4_100]);
    assert_eq!(backoff.tick_index(), 6);
    assert!(backoff.is_exhausted());
    assert_eq!(backoff.advance(0), None);
    assert_eq!(backoff.step(), None);
    assert_eq!(backoff.tick(), None);
    assert_eq!(backoff.tick_index(), 6);
}

#[test]
fn backoff_adds_the_noise_to_the_wait() {
    let mut backoff = Backoff::new_at(8, None, 1_000, 1_000, 2, 50);
    assert_eq!(backoff.tick_index(), 2);
    assert_eq!(backoff.advance(999), Some(50 + 4_000 + 999));
    assert_eq!(backoff.advance(0), Some(5_049 + 8_000));
    assert_eq!(backoff.tick_index(), 4);
}

#[test]
fn backoff_step_stays_within_the_noise() {
    for _ in 0..200 {
        let mut backoff = Backoff::new(5, Some(16), 100, 100, 0);
        let mut last = 0;
        let mut i = 0u32;
        while backoff.can_step() {
            match backoff.step() {
                Some(next) => {
                    let base = 100 * 2u64.pow(i.min(5));
                    assert!(next >= last + base && next < last + base + 100, "{i}: {last} {next}");
                    last = next;
                    i += 1;
                }
                None => break,
            }
        }
        assert_eq!(i, 17);
        assert_eq!(backoff.tick_index(), 17);
    }
}

#[test]
fn backoff_tick_waits_for_the_time_set_before() {
    let mut backoff = Backoff::new(5, Some(1), 100, 10, 7_000);
    assert_eq!(backoff.tick(), Some(7_000));
    let second = backoff.tick().unwrap();
    assert!((7_100..7_110).contains(&second));
    assert_eq!(backoff.tick(), None);
    assert_eq!(backoff.tick_index(), 2);
}

#[test]
fn backoff_defaults() {
    let mut usual = Backoff::default_at(0);
    let mut ticks = 0;
    while usual.advance(0).is_some() {
        ticks += 1;
    }
    assert_eq!(ticks, 17);
    let mut endless = Backoff::default_infinite(0);
    assert_eq!(endless.advance(0), Some(1_000));
    for _ in 0..10 {
        endless.advance(0);
    }
    // 1 + 2 + 4 + ... + 256 seconds, then 256 seconds twice more.
    assert_eq!(endless.advance(0), Some(511_000 + 3 * 256_000));
    assert!(!endless.is_exhausted());
}

#[test]
fn backoff_knows_when_a_step_would_overflow() {
    assert!(!Backoff::new(5, None, 100, 0, 0).can_step());
    assert!(!Backoff::new(5, Some(0), 100, 0, 0).can_step());
    assert!(!Backoff::new_at(5, None, 100, 0, 1, 0).can_step());
    assert!(Backoff::new_at(5, Some(0), 100, 0, 1, 0).can_step());
    assert!(!Backoff::new_at(200, None, 1, 1, 150, 0).can_step());
    assert!(!Backoff::new_at(63, None, 2, 1, 63, 0).can_step());
    assert!(!Backoff::new(5, None, usize::MAX, 2, 0).can_step());
    assert!(!Backoff::new(5, None, 1, 1, u64::MAX).can_step());
    assert!(Backoff::new(5, None, 1, 1, u64::MAX - 1).can_step());
    assert!(!Backoff::new_at(5, None, 1, 1, usize::MAX, 0).can_step());
    assert!(Backoff::new_at(200, None, 1, 1, 20, 0).can_step());
}

#[test]
fn timestamps_are_told_in_milliseconds() {
    assert_eq!(TsToMillis::to_millis(1_700_000_000_000i64), Ok(1_700_000_000_000));
    assert_eq!(TsToMillis::to_millis(-5i64), Ok(-5));
    assert_eq!(TsToMillis::to_millis(42u128), Ok(42));
    assert_eq!(TsToMillis::to_millis(i64::MAX as u128), Ok(i64::MAX));
    assert_eq!(TsToMillis::to_millis(i64::MAX as u128 + 1), Err(TimeError::OutOfRange));
    assert_eq!(TsToMillis::to_millis(u128::MAX), Err(TimeError::OutOfRange));
}

#[test]
fn durations_are_told_in_milliseconds() {
    assert_eq!(DurationToMillis::to_millis(1_500i64), Ok(1_500));
    assert_eq!(DurationToMillis::to_millis(0i64), Ok(0));
    assert_eq!(DurationToMillis::to_millis(-1i64), Err(TimeError::OutOfRange));
    assert_eq!(DurationToMillis::to_millis(i64::MIN), Err(TimeError::OutOfRange));
    assert_eq!(DurationToMillis::to_millis(i64::MAX), Ok(i64::MAX as u64));
    assert_eq!(DurationToMillis::to_millis(7i32), Ok(7));
    assert_eq!(DurationToMillis::to_millis(-7i32), Err(TimeError::OutOfRange));
    assert_eq!(DurationToMillis::to_millis(u64::MAX), Ok(u64::MAX));
    assert_eq!(DurationToMillis::to_millis(u64::MAX as u128), Ok(u64::MAX));
    assert_eq!(DurationToMillis::to_millis(u64::MAX as u128 + 1), Err(TimeError::OutOfRange));
}

#[test]
fn sleep_for_is_what_is_left_until_the_timestamp() {
    assert_eq!(sleep_for(1_000, 400), Some(600));
    assert_eq!(sleep_for(1_000, 1_000), Some(0));
    assert_eq!(sleep_for(1_000, 1_001), None);
    assert_eq!(sleep_for(u64::MAX, 0), Some(u64::MAX));
    assert_eq!(sleep_for(0, u64::MAX), None);
}

#[test]
fn only_a_recoverable_workflow_error_is_recoverable() {
    let recoverable = GlobalError::Raw { workflow: Some(WorkflowError { recoverable: true }) };
    let fatal = GlobalError::Raw { workflow: Some(WorkflowError { recoverable: false }) };
    let foreign = GlobalError::Raw { workflow: None };
    assert!(recoverable.is_workflow_recoverable());
    assert!(!fatal.is_workflow_recoverable());
    assert!(!foreign.is_workflow_recoverable());
    assert!(!GlobalError::Formatted.is_workflow_recoverable());
    assert!(WorkflowError { recoverable: true }.is_recoverable());

    let ok: Result<u8, GlobalError> = Ok(1);
    assert!(!ok.is_workflow_recoverable());
    assert!(Err::<u8, _>(recoverable).is_workflow_recoverable());
    assert!(!Err::<u8, _>(fatal).is_workflow_recoverable());
    assert!(!Err::<(), _>(GlobalError::Formatted).is_workflow_recoverable());
}

#[test]
fn operation_ctx_keeps_what_it_was_given() {
    let ctx = OperationCtx::new(0xAA, 0xBB, 5_000, 4_200, true, "pegboard-ws");
    assert_eq!(ctx.name(), "pegboard-ws");
    assert_eq!(ctx.ray_id(), 0xAA);
    assert_eq!(ctx.req_id(), 0xBB);
    assert_eq!(ctx.ts(), 5_000);
    assert_eq!(ctx.req_ts(), 4_200);
    assert_eq!(ctx.req_dt(), 800);
    assert!(ctx.from_workflow());
    assert_eq!(OPERATION_TIMEOUT, 60_000);
}

#[test]
fn req_dt_saturates() {
    let dt = |ts: i64, req_ts: i64| OperationCtx::new(0, 0, ts, req_ts, false, "op").req_dt();
    assert_eq!(dt(10, 30), -20);
    assert_eq!(dt(i64::MAX, -1), i64::MAX);
    assert_eq!(dt(i64::MIN, 1), i64::MIN);
    assert_eq!(dt(i64::MIN, i64::MIN), 0);
    assert_eq!(dt(-1, i64::MIN), i64::MAX);
    assert_eq!(dt(0, i64::MIN), i64::MAX);
    assert_eq!(dt(-2, i64::MAX), i64::MIN);
    let pairs = [(0, 0), (5, -5), (i64::MAX, i64::MAX), (i64::MIN, i64::MAX), (123, i64::MIN)];
    for (ts, req_ts) in pairs {
        assert_eq!(dt(ts, req_ts), ts.saturating_sub(req_ts));
    }
}

#[test]
fn client_config_holds_the_setup_of_a_client() {
    let config = ClientConfig {
        network: Network {
            bind_ip: BindIp::V4([0, 0, 0, 0]),
            lan_hostname: "10.0.0.4".to_string(),
            wan_hostname: "node-4.example.com".to_string(),
            lan_port_range_min: 20_000,
            lan_port_range_max: 25_999,
            wan_port_range_min: 26_000,
            wan_port_range_max: 31_999,
        },
        reserved_resources: ReservedResources { cpu: 1_000, memory: 512 },
    };
    assert_eq!(config.reserved_resources, ReservedResources { cpu: 1_000, memory: 512 });
    assert_eq!(config.network.bind_ip, BindIp::V4([0; 4]));
    assert_ne!(config.network.bind_ip, BindIp::V6([0; 16]));
    assert_eq!(config.network.wan_hostname, "node-4.example.com");
}
