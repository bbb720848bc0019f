use rustcheck::arbitrary::Arbitrary;
use rustcheck::context::{choose_in_range, TestContext};
use rustcheck::outcome::{TestResult, TestResultish};
use rustcheck::properties::{reversed, same_items, Always, AtMost, ReversedTwice, SizeBelow};
use rustcheck::property::{Predicate, Property};
use rustcheck::quantifier::{for_all, for_all_with, record, ForAll};
use rustcheck::random::RandomSource;
use rustcheck::report::{all_succeeded, report_line, run_test, run_tests};
use rustcheck::runner::{run_a_test, run_schedule, run_with_schedule, Test};
use rustcheck::text::ToText;

fn context(seed: u64, size: u32) -> TestContext {
    let mut ctx = TestContext::new(seed);
    ctx.set_size(size);
    ctx
}

#[test]
fn random_source_follows_splitmix() {
    let mut source = RandomSource::new(0);
    assert_eq!(source.next_u64(), 0xE220_A839_7B1D_CDAF);
    assert_eq!(source.next_u64(), 0x6E78_9E6A_A1B9_65F4);
    assert_eq!(source.state, 0x9E37_79B9_7F4A_7C15u64.wrapping_mul(2));
}

#[test]
fn same_seed_gives_same_values() {
    let mut a = context(42, 1000);
    let mut b = context(42, 1000);
    let left: Vec<i64> = Arbitrary::arbitrary(&mut a);
    let right: Vec<i64> = Arbitrary::arbitrary(&mut b);
    assert_eq!(left, right);
    assert_eq!(a.random.state, b.random.state);
}

#[test]
fn fresh_context_has_size_zero() {
    let ctx = TestContext::new(7);
    assert_eq!(ctx.size, 0);
    assert_eq!(ctx.random.state, 7);
}

#[test]
fn choose_in_range_is_the_raw_draw_reduced() {
    let mut ctx = context(0, 10);
    let value = choose_in_range(&mut ctx, 3, 12);
    let raw: u64 = 0xE220_A839_7B1D_CDAF;
    assert_eq!(value, 3 + (raw % 10) as i64);
    assert_eq!(ctx.size, 10);
}

#[test]
fn choose_in_range_stays_in_range() {
    let mut seed: u64 = 0;
    while seed < 300 {
        let mut ctx = context(seed, 5);
        let value = choose_in_range(&mut ctx, -4, 9);
        assert!(-4 <= value && value <= 9);
        let single = choose_in_range(&mut ctx, 6, 6);
        assert_eq!(single, 6);
        let wide = choose_in_range(&mut ctx, i64::MIN, i64::MAX);
        assert!(i64::MIN <= wide);
        seed += 1;
    }
}

#[test]
fn choose_in_range_reaches_both_ends() {
    let mut ctx = context(1, 1);
    let mut low = false;
    let mut high = false;
    let mut n: u32 = 0;
    while n < 200 {
        let value = choose_in_range(&mut ctx, 0, 1);
        if value == 0 {
            low = true;
        }
        if value == 1 {
            high = true;
        }
        n += 1;
    }
    assert!(low && high);
}

#[test]
fn generated_integers_are_within_size() {
    let mut seed: u64 = 0;
    while seed < 500 {
        let size = (seed % 50) as u32;
        let mut ctx = context(seed, size);
        let value: i64 = Arbitrary::arbitrary(&mut ctx);
        assert!(0 <= value && value <= size as i64);
        seed += 1;
    }
}

#[test]
fn generated_sequences_are_within_size() {
    let mut seed: u64 = 0;
    while seed < 500 {
        let size = (seed % 40) as u32;
        let mut ctx = context(seed, size);
        let value: Vec<i64> = Arbitrary::arbitrary(&mut ctx);
        assert!(value.len() <= size as usize);
        for item in value.iter() {
            assert!(0 <= *item && *item <= size as i64);
        }
        assert_eq!(ctx.size, size);
        seed += 1;
    }
}

#[test]
fn generated_nested_sequences_are_within_size() {
    let mut seed: u64 = 0;
    while seed < 100 {
        let mut ctx = context(seed, 6);
        let value: Vec<Vec<bool>> = Arbitrary::arbitrary(&mut ctx);
        assert!(value.len() <= 6);
        for inner in value.iter() {
            assert!(inner.len() <= 6);
        }
        seed += 1;
    }
}

#[test]
fn size_zero_gives_zero_and_empty() {
    let mut ctx = context(99, 0);
    let number: i64 = Arbitrary::arbitrary(&mut ctx);
    assert_eq!(number, 0);
    let items: Vec<i64> = Arbitrary::arbitrary(&mut ctx);
    assert!(items.is_empty());
}

#[test]
fn sequence_is_length_then_items_in_order() {
    let mut ctx = context(5, 20);
    let items: Vec<i64> = Arbitrary::arbitrary(&mut ctx);
    let mut again = context(5, 20);
    let length = choose_in_range(&mut again, 0, 20);
    assert_eq!(items.len() as i64, length);
    for item in items.iter() {
        let expected: i64 = Arbitrary::arbitrary(&mut again);
        assert_eq!(*item, expected);
    }
    assert_eq!(ctx.random.state, again.random.state);
}

#[test]
fn generated_booleans_take_both_values() {
    let mut ctx = context(3, 0);
    let mut yes = false;
    let mut no = false;
    let mut n: u32 = 0;
    while n < 200 {
        let value: bool = Arbitrary::arbitrary(&mut ctx);
        if value {
            yes = true;
        } else {
            no = true;
        }
        n += 1;
    }
    assert!(yes && no);
}

#[test]
fn boolean_conversion() {
    assert_eq!(<bool as TestResultish>::to_test_result(&true), TestResult::Success);
    assert_eq!(<bool as TestResultish>::to_test_result(&false), TestResult::Fail(vec![]));
}

#[test]
fn result_converts_to_itself() {
    let fail = TestResult::Fail(vec!["[1]".to_string()]);
    assert_eq!(<TestResult as TestResultish>::to_test_result(&fail), fail);
    let exhausted = TestResult::ExhaustedGenerators(4);
    assert_eq!(<TestResult as TestResultish>::to_test_result(&exhausted), exhausted);
    assert_eq!(
        <TestResult as TestResultish>::to_test_result(&TestResult::Success),
        TestResult::Success
    );
}

#[test]
fn text_of_integers() {
    assert_eq!(0i64.to_text(), "0");
    assert_eq!(7i64.to_text(), "7");
    assert_eq!(10i64.to_text(), "10");
    assert_eq!((-2i64).to_text(), "-2");
    assert_eq!(1234567890i64.to_text(), "1234567890");
    assert_eq!(i64::MAX.to_text(), "9223372036854775807");
    assert_eq!(i64::MIN.to_text(), "-9223372036854775808");
}

#[test]
fn text_of_booleans_and_sequences() {
    assert_eq!(true.to_text(), "true");
    assert_eq!(false.to_text(), "false");
    let empty: Vec<i64> = vec![];
    assert_eq!(empty.to_text(), "[]");
    assert_eq!(vec![0i64].to_text(), "[0]");
    assert_eq!(vec![5i64, -2].to_text(), "[5, -2]");
    assert_eq!(vec![vec![1i64, 2], vec![], vec![3]].to_text(), "[[1, 2], [], [3]]");
    assert_eq!(vec![true, false].to_text(), "[true, false]");
}

#[test]
fn record_puts_text_in_front_of_a_failure() {
    let inner = TestResult::Fail(vec!["b".to_string(), "c".to_string()]);
    assert_eq!(
        record("a".to_string(), inner),
        TestResult::Fail(vec!["a".to_string(), "b".to_string(), "c".to_string()])
    );
}

#[test]
fn record_passes_other_results_through() {
    assert_eq!(record("a".to_string(), TestResult::Success), TestResult::Success);
    assert_eq!(
        record("a".to_string(), TestResult::ExhaustedGenerators(12)),
        TestResult::ExhaustedGenerators(12)
    );
}

#[test]
fn for_all_success_passes_through() {
    let mut ctx = context(11, 10);
    let result = for_all::<i64, Always>(&mut ctx, &Always { holds: true });
    assert_eq!(result, TestResult::Success);
}

#[test]
fn for_all_failure_names_the_value() {
    let mut ctx = context(11, 10);
    let result = for_all::<Vec<i64>, Always>(&mut ctx, &Always { holds: false });
    let mut again = context(11, 10);
    let value: Vec<i64> = Arbitrary::arbitrary(&mut again);
    assert_eq!(result, TestResult::Fail(vec![value.to_text()]));
    assert_eq!(ctx.random.state, again.random.state);
}

#[test]
fn for_all_at_most_depends_on_the_value() {
    let mut seed: u64 = 0;
    while seed < 100 {
        let mut ctx = context(seed, 1000);
        let result = for_all::<i64, AtMost>(&mut ctx, &AtMost { bound: 500 });
        let mut again = context(seed, 1000);
        let value: i64 = Arbitrary::arbitrary(&mut again);
        if value <= 500 {
            assert_eq!(result, TestResult::Success);
        } else {
            assert_eq!(result, TestResult::Fail(vec![value.to_text()]));
        }
        seed += 1;
    }
}

#[test]
fn nested_trail_is_outer_then_inner() {
    let mut seed: u64 = 0;
    while seed < 50 {
        let inner = ForAll::<bool, Always>::new(Always { holds: false });
        let outer = ForAll::<Vec<i64>, ForAll<bool, Always>>::new(inner);
        let mut ctx = context(seed, 10);
        let result = outer.check(&mut ctx);
        let mut again = context(seed, 10);
        let first: Vec<i64> = Arbitrary::arbitrary(&mut again);
        let second: bool = Arbitrary::arbitrary(&mut again);
        match result {
            TestResult::Fail(trail) => {
                assert_eq!(trail.len(), 2);
                assert_eq!(trail[0], first.to_text());
                assert_eq!(trail[1], second.to_text());
            }
            _ => panic!("the inner predicate always fails"),
        }
        seed += 1;
    }
}

#[test]
fn nested_for_all_through_the_function() {
    let inner = ForAll::<i64, Always>::new(Always { holds: false });
    let mut ctx = context(8, 1000);
    let result = for_all::<i64, ForAll<i64, Always>>(&mut ctx, &inner);
    let mut again = context(8, 1000);
    let first: i64 = Arbitrary::arbitrary(&mut again);
    let second: i64 = Arbitrary::arbitrary(&mut again);
    assert_eq!(result, TestResult::Fail(vec![first.to_text(), second.to_text()]));
}

#[test]
fn runner_short_circuit() {
    let test = Test { name: "small sizes".to_string(), property: SizeBelow { limit: 1000 } };
    assert_eq!(run_a_test(&test, 1), TestResult::Fail(vec![]));
    let schedule: Vec<u32> = vec![10, 1000, 2000, 3000];
    let mut ctx = TestContext::new(1);
    let report = run_schedule(&test.property, &mut ctx, &schedule);
    assert_eq!(report.result, TestResult::Fail(vec![]));
    assert_eq!(report.passes, 2);
    assert_eq!(ctx.size, 1000);
}

#[test]
fn runner_returns_the_failure_of_the_large_pass() {
    let property = ForAll::<Vec<i64>, ReversedTwice>::new(ReversedTwice { corruption: -1 });
    let schedule: Vec<u32> = vec![0, 1000];
    let mut seed: u64 = 0;
    while seed < 20 {
        let mut ctx = TestContext::new(seed);
        let report = run_schedule(&property, &mut ctx, &schedule);
        let mut again = TestContext::new(seed);
        again.set_size(0);
        let small: Vec<i64> = Arbitrary::arbitrary(&mut again);
        assert!(small.is_empty());
        again.set_size(1000);
        let large: Vec<i64> = Arbitrary::arbitrary(&mut again);
        assert_eq!(report.passes, 2);
        if large.is_empty() {
            assert_eq!(report.result, TestResult::Success);
        } else {
            assert_eq!(report.result, TestResult::Fail(vec![large.to_text()]));
        }
        seed += 1;
    }
}

#[test]
fn runner_all_pass() {
    let test = Test { name: "always".to_string(), property: Always { holds: true } };
    assert_eq!(run_a_test(&test, 5), TestResult::Success);
    let schedule: Vec<u32> = vec![1, 2, 3, 4, 5];
    assert_eq!(run_with_schedule(&test, 5, &schedule), TestResult::Success);
    let mut ctx = TestContext::new(5);
    let report = run_schedule(&test.property, &mut ctx, &schedule);
    assert_eq!(report.result, TestResult::Success);
    assert_eq!(report.passes, 5);
    assert_eq!(ctx.size, 5);
}

#[test]
fn runner_stops_at_the_first_pass_that_fails() {
    let test = Test { name: "never".to_string(), property: Always { holds: false } };
    let schedule: Vec<u32> = vec![10, 1000];
    let mut ctx = TestContext::new(5);
    let report = run_schedule(&test.property, &mut ctx, &schedule);
    assert_eq!(report.result, TestResult::Fail(vec![]));
    assert_eq!(report.passes, 1);
    assert_eq!(ctx.size, 10);
}

#[test]
fn runner_on_an_empty_schedule_succeeds() {
    let test = Test { name: "never".to_string(), property: Always { holds: false } };
    let schedule: Vec<u32> = vec![];
    let mut ctx = TestContext::new(5);
    let report = run_schedule(&test.property, &mut ctx, &schedule);
    assert_eq!(report.result, TestResult::Success);
    assert_eq!(report.passes, 0);
}

#[test]
fn report_lines() {
    assert_eq!(report_line("reverse vec", &TestResult::Success), "success reverse vec");
    assert_eq!(
        report_line("reverse vec", &TestResult::Fail(vec!["[5, -2]".to_string()])),
        "failed reverse vec, counter example:\n[5, -2]"
    );
    assert_eq!(
        report_line("pair", &TestResult::Fail(vec!["[0]".to_string(), "true".to_string()])),
        "failed pair, counter example:\n[0]\ntrue"
    );
    assert_eq!(report_line("empty", &TestResult::Fail(vec![])), "failed empty, counter example:\n");
    assert_eq!(
        report_line("any", &TestResult::ExhaustedGenerators(100)),
        "exhausted generators after 100 tries"
    );
    assert_eq!(
        report_line("any", &TestResult::ExhaustedGenerators(0)),
        "exhausted generators after 0 tries"
    );
    assert_eq!(
        report_line("any", &TestResult::ExhaustedGenerators(usize::MAX)),
        format!("exhausted generators after {} tries", usize::MAX)
    );
}

#[test]
fn reversed_and_same_items() {
    assert_eq!(reversed(&vec![1, 2, 3]), vec![3, 2, 1]);
    assert_eq!(reversed(&vec![]), Vec::<i64>::new());
    assert!(same_items(&vec![1, 2], &vec![1, 2]));
    assert!(!same_items(&vec![1, 2], &vec![1, 3]));
    assert!(!same_items(&vec![1, 2], &vec![1]));
}

#[test]
fn reversed_twice_holds_only_where_the_last_item_is_the_corruption() {
    let predicate = ReversedTwice { corruption: 0 };
    let mut ctx = context(0, 10);
    assert_eq!(predicate.test(&mut ctx, &vec![]), TestResult::Success);
    assert_eq!(predicate.test(&mut ctx, &vec![0]), TestResult::Success);
    assert_eq!(predicate.test(&mut ctx, &vec![4, 0]), TestResult::Success);
    assert_eq!(predicate.test(&mut ctx, &vec![5]), TestResult::Fail(vec![]));
    assert_eq!(predicate.test(&mut ctx, &vec![0, 5]), TestResult::Fail(vec![]));
}

#[test]
fn reverse_scenario() {
    let mut failures: u32 = 0;
    let mut seed: u64 = 0;
    while seed < 50 {
        let property = ForAll::<Vec<i64>, ReversedTwice>::new(ReversedTwice { corruption: -1 });
        let test = Test { name: "reverse vec".to_string(), property };
        let report = run_test(&test, seed);
        let mut again = TestContext::new(seed);
        again.set_size(10);
        let small: Vec<i64> = Arbitrary::arbitrary(&mut again);
        again.set_size(1000);
        let large: Vec<i64> = Arbitrary::arbitrary(&mut again);
        if !small.is_empty() {
            assert_eq!(report.result, TestResult::Fail(vec![small.to_text()]));
            assert_eq!(
                report.line,
                format!("failed reverse vec, counter example:\n{}", small.to_text())
            );
            assert!(report.line.starts_with("failed reverse vec, counter example:\n["));
            failures += 1;
        } else if !large.is_empty() {
            assert_eq!(report.result, TestResult::Fail(vec![large.to_text()]));
            failures += 1;
        } else {
            assert_eq!(report.line, "success reverse vec");
        }
        seed += 1;
    }
    assert!(failures > 0);
}

#[test]
fn run_tests_reports_each_test_in_order() {
    let tests = vec![
        Test { name: "first".to_string(), property: SizeBelow { limit: 2000 } },
        Test { name: "second".to_string(), property: SizeBelow { limit: 1000 } },
        Test { name: "third".to_string(), property: SizeBelow { limit: 5 } },
        Test { name: "fourth".to_string(), property: SizeBelow { limit: 1001 } },
    ];
    let reports = run_tests(&tests, 17);
    assert_eq!(reports.len(), 4);
    assert_eq!(reports[0].line, "success first");
    assert_eq!(reports[1].line, "failed second, counter example:\n");
    assert_eq!(reports[2].line, "failed third, counter example:\n");
    assert_eq!(reports[3].line, "success fourth");
    assert_eq!(reports[0].result, TestResult::Success);
    assert_eq!(reports[1].result, TestResult::Fail(vec![]));
    assert!(!all_succeeded(&reports));
}

#[test]
fn run_tests_gives_each_test_what_it_gets_alone() {
    let make = || Test {
        name: "reverse vec".to_string(),
        property: ForAll::<Vec<i64>, ReversedTwice>::new(ReversedTwice { corruption: -1 }),
    };
    let tests = vec![make(), make(), make()];
    let reports = run_tests(&tests, 23);
    let alone = run_test(&make(), 23);
    for report in reports.iter() {
        assert_eq!(report.result, alone.result);
        assert_eq!(report.line, alone.line);
    }
}

#[test]
fn all_succeeded_on_successes_and_on_nothing() {
    let tests = vec![
        Test { name: "a".to_string(), property: Always { holds: true } },
        Test { name: "b".to_string(), property: Always { holds: true } },
    ];
    assert!(all_succeeded(&run_tests(&tests, 0)));
    let none: Vec<Test<Always>> = vec![];
    let reports = run_tests(&none, 0);
    assert!(reports.is_empty());
    assert!(all_succeeded(&reports));
}

#[test]
fn for_all_with_a_closure() {
    let mut seed: u64 = 0;
    while seed < 100 {
        let mut ctx = context(seed, 100);
        let result = for_all_with(&mut ctx, |value: &Vec<i64>| {
            <bool as TestResultish>::to_test_result(&(value.len() < 50))
        });
        let mut again = context(seed, 100);
        let value: Vec<i64> = Arbitrary::arbitrary(&mut again);
        if value.len() < 50 {
            assert_eq!(result, TestResult::Success);
        } else {
            assert_eq!(result, TestResult::Fail(vec![value.to_text()]));
        }
        assert_eq!(ctx.random.state, again.random.state);
        seed += 1;
    }
}

#[test]
fn for_all_with_passes_exhaustion_through() {
    let mut ctx = context(2, 10);
    let result = for_all_with(&mut ctx, |_value: &i64| TestResult::ExhaustedGenerators(3));
    assert_eq!(result, TestResult::ExhaustedGenerators(3));
}
