use std::cell::RefCell;

use concurrency::metric::{next_count, Counts, Inc, Metric, MetricError};

#[test]
fn counts_start_at_one_and_keep_first_seen_order() {
    let mut counts = Counts::new();
    assert_eq!(counts.get(&"a".to_string()), None);
    counts.inc("b".to_string()).unwrap();
    counts.inc("a".to_string()).unwrap();
    counts.inc("b".to_string()).unwrap();
    assert_eq!(counts.get(&"a".to_string()), Some(1));
    assert_eq!(counts.get(&"b".to_string()), Some(2));
    assert_eq!(counts.to_string(), "b : 2\na : 1\n\n");
}

#[test]
fn empty_counts_render_as_empty_line() {
    assert_eq!(Counts::new().to_string(), "\n");
}

#[test]
fn next_count_refuses_to_wrap() {
    assert_eq!(next_count(0), Ok(1));
    assert_eq!(next_count(-1), Ok(0));
    assert_eq!(next_count(i64::MAX), Err(MetricError::Overflow));
}

#[derive(Default)]
struct Recorder {
    keys: RefCell<Vec<String>>,
}

impl Inc for Recorder {
    fn inc(&self, key: String) -> Result<(), MetricError> {
        self.keys.borrow_mut().push(key);
        Ok(())
    }
}

#[test]
fn metric_forwards_to_its_counter() {
    let metric: Metric<Recorder> = Metric::new();
    metric.inc("call.worker-0".to_string()).unwrap();
    metric.inc("call.worker-1".to_string()).unwrap();
    assert_eq!(*metric.inner().keys.borrow(), vec!["call.worker-0".to_string(), "call.worker-1".to_string()]);
}
