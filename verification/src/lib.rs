//! A fixed-window throughput monitor for an emulated-machine host loop.
//!
//! A [`PerfCounter`] turns a stream of "work completed" cycle counts plus
//! nanosecond timestamps into a smoothed cycles-per-second estimate and an
//! exact percentage-of-real-device speed figure.

mod perf_counter;

pub use perf_counter::PerfCounter;
pub use perf_counter::Sample;
pub use perf_counter::SpeedPercent;
pub use perf_counter::HISTORY_SIZE;
pub use perf_counter::EXPECTED_CYCLES_PER_SECOND;
pub use perf_counter::NANOS_PER_SECOND;
pub use perf_counter::max_rate;
pub use perf_counter::rate_value;
pub use perf_counter::sample_bounded;
pub use perf_counter::sample_at;
pub use perf_counter::evicted;
pub use perf_counter::pushed;
pub use perf_counter::all_rates;
pub use perf_counter::rate_sum;
pub use perf_counter::relative_speed;
pub use perf_counter::updated;
pub use perf_counter::lemma_rate_sum_bounds;
pub use perf_counter::lemma_update_keeps_rates;
pub use perf_counter::lemma_speed_defined;
pub use perf_counter::lemma_fifo_eviction;
pub use perf_counter::lemma_rate_sum_constant;
pub use perf_counter::lemma_constant_rate_mean;
