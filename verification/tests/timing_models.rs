use generation::model::JsonTiming;
use generation::timing::describe_timing;
use generation::timing::later;
use generation::timing::parse_timing;
use generation::timing::TimingModel;

fn timing(family: &str, params: &[u64]) -> JsonTiming {
    JsonTiming { family: family.to_string(), params: params.to_vec() }
}

#[test]
fn fixed_delay_ignores_the_draw() {
    let model = TimingModel::Fixed { delay: 250 };
    assert_eq!(model.delay(0), 250);
    assert_eq!(model.delay(u32::MAX), 250);
}

#[test]
fn uniform_delay_covers_its_range_in_order() {
    let model = TimingModel::Uniform { min: 100, max: 199 };
    assert_eq!(model.delay(0), 100);
    assert_eq!(model.delay(0x8000_0000), 150);
    assert_eq!(model.delay(u32::MAX), 199);
    // 100 delays share 2^32 draws: the first takes draws 0 ..= 42949672.
    assert_eq!(model.delay(42_949_672), 100);
    assert_eq!(model.delay(42_949_673), 101);
}

#[test]
fn uniform_delay_of_one_point_is_that_point() {
    let model = TimingModel::Uniform { min: 77, max: 77 };
    assert_eq!(model.delay(0), 77);
    assert_eq!(model.delay(u32::MAX), 77);
}

#[test]
fn uniform_delay_over_the_whole_range_stays_in_range() {
    let model = TimingModel::Uniform { min: 0, max: u64::MAX };
    assert_eq!(model.delay(0), 0);
    assert_eq!(model.delay(1), 1u64 << 32);
    assert_eq!(model.delay(u32::MAX), (u32::MAX as u64) << 32);
}

#[test]
fn uniform_delay_with_bounds_out_of_order_is_the_first_bound() {
    let model = TimingModel::Uniform { min: 9, max: 3 };
    assert_eq!(model.delay(0), 9);
    assert_eq!(model.delay(u32::MAX), 9);
}

#[test]
fn later_adds_and_saturates() {
    assert_eq!(later(10, 5), 15);
    assert_eq!(later(0, 0), 0);
    assert_eq!(later(u64::MAX - 1, 1), u64::MAX);
    assert_eq!(later(u64::MAX - 1, 5), u64::MAX);
    assert_eq!(later(u64::MAX, u64::MAX), u64::MAX);
}

#[test]
fn timing_descriptions_are_read() {
    assert_eq!(parse_timing(&timing("fixed", &[12])), Some(TimingModel::Fixed { delay: 12 }));
    assert_eq!(
        parse_timing(&timing("uniform", &[3, 8])),
        Some(TimingModel::Uniform { min: 3, max: 8 })
    );
    assert_eq!(
        parse_timing(&timing("uniform", &[8, 8])),
        Some(TimingModel::Uniform { min: 8, max: 8 })
    );
}

#[test]
fn faulty_timing_descriptions_are_refused() {
    assert_eq!(parse_timing(&timing("fixed", &[])), None);
    assert_eq!(parse_timing(&timing("fixed", &[1, 2])), None);
    assert_eq!(parse_timing(&timing("uniform", &[1])), None);
    assert_eq!(parse_timing(&timing("uniform", &[1, 2, 3])), None);
    assert_eq!(parse_timing(&timing("uniform", &[9, 3])), None);
    assert_eq!(parse_timing(&timing("gaussian", &[1, 2])), None);
    assert_eq!(parse_timing(&timing("Fixed", &[1])), None);
    assert_eq!(parse_timing(&timing("", &[1])), None);
}

#[test]
fn described_timing_reads_back() {
    for model in [
        TimingModel::Fixed { delay: 0 },
        TimingModel::Fixed { delay: u64::MAX },
        TimingModel::Uniform { min: 5, max: 5 },
        TimingModel::Uniform { min: 0, max: 1_000_000 },
    ] {
        let description = describe_timing(model);
        assert_eq!(parse_timing(&description), Some(model));
    }
    assert_eq!(describe_timing(TimingModel::Fixed { delay: 4 }).family, "fixed");
    assert_eq!(describe_timing(TimingModel::Fixed { delay: 4 }).params, vec![4]);
    assert_eq!(describe_timing(TimingModel::Uniform { min: 1, max: 2 }).family, "uniform");
    assert_eq!(describe_timing(TimingModel::Uniform { min: 1, max: 2 }).params, vec![1, 2]);
}
