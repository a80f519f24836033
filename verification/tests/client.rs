use hyperkv::client::{
    classify, deliver, resolve, OpKind, OpState, Operation, Reply, STATUS_COMPARE_FAILED,
    STATUS_DUPLICATE_ATTRIBUTE, STATUS_KEY_MISUSED, STATUS_NOT_FOUND, STATUS_SEARCH_DONE,
    STATUS_SUCCESS, STATUS_UNKNOWN_ATTRIBUTE, STATUS_UNKNOWN_SPACE, STATUS_WRONG_TYPE,
};
use hyperkv::error::Error;
use hyperkv::object::Object;
use hyperkv::pipeline::Pipeline;
use hyperkv::stream::{SearchStream, Step};
use hyperkv::value::Value;

const TIMEOUT: u32 = 8519;

fn obj(n: i64) -> Object {
    Object::new().with("v".to_string(), Value::Int(n)).unwrap()
}

fn is_item(step: Step, n: i64) -> bool {
    match step {
        Step::Item(o) => o.same(&obj(n)) == Ok(true),
        _ => false,
    }
}

#[test]
fn status_codes() {
    assert_eq!(STATUS_SUCCESS, 8448);
    assert_eq!(classify(8448), Reply::Success);
    assert_eq!(classify(STATUS_NOT_FOUND), Reply::NotFound);
    assert_eq!(classify(8449), Reply::NotFound);
    assert_eq!(classify(STATUS_SEARCH_DONE), Reply::SearchDone);
    assert_eq!(classify(8450), Reply::SearchDone);
    assert_eq!(classify(STATUS_COMPARE_FAILED), Reply::CompareFailed);
    assert_eq!(classify(8451), Reply::CompareFailed);
    for status in [
        STATUS_UNKNOWN_SPACE, STATUS_UNKNOWN_ATTRIBUTE, STATUS_DUPLICATE_ATTRIBUTE,
        STATUS_KEY_MISUSED, STATUS_WRONG_TYPE, 8512, 8520, 8521, 8524, 8525,
    ] {
        assert_eq!(classify(status), Reply::Rejected);
    }
    for status in [0u32, 1, 8447, 8452, 8513, 8514, 8515, 8516, 8517, TIMEOUT, 8523, 8526, 8575, u32::MAX] {
        assert_eq!(classify(status), Reply::Fault);
    }
}

fn outcome(kind: OpKind, status: u32, payload: Option<Object>) -> Result<bool, Error> {
    resolve(kind, status, payload).map(|found| found.is_some())
}

#[test]
fn reads_resolve() {
    for kind in [OpKind::Get, OpKind::GetPartial] {
        assert_eq!(outcome(kind, STATUS_SUCCESS, Some(obj(1))), Ok(true));
        assert_eq!(outcome(kind, STATUS_SUCCESS, None), Err(Error::TransportError));
        assert_eq!(outcome(kind, STATUS_NOT_FOUND, None), Err(Error::NotFound));
        assert_eq!(outcome(kind, STATUS_COMPARE_FAILED, None), Err(Error::TransportError));
        assert_eq!(outcome(kind, STATUS_WRONG_TYPE, None), Err(Error::InvalidArgument));
        assert_eq!(outcome(kind, STATUS_SEARCH_DONE, None), Err(Error::TransportError));
        assert_eq!(outcome(kind, TIMEOUT, None), Err(Error::TransportError));
    }
    let found = resolve(OpKind::Get, STATUS_SUCCESS, Some(obj(5))).unwrap().unwrap();
    assert_eq!(found.same(&obj(5)), Ok(true));
}

#[test]
fn writes_resolve() {
    for kind in [OpKind::Put, OpKind::CondPut, OpKind::Del] {
        assert_eq!(outcome(kind, STATUS_SUCCESS, None), Ok(false));
        assert_eq!(outcome(kind, STATUS_SUCCESS, Some(obj(1))), Ok(false));
        assert_eq!(outcome(kind, STATUS_UNKNOWN_ATTRIBUTE, None), Err(Error::InvalidArgument));
        assert_eq!(outcome(kind, TIMEOUT, None), Err(Error::TransportError));
    }
    assert_eq!(outcome(OpKind::CondPut, STATUS_COMPARE_FAILED, None), Err(Error::ConditionFailed));
    assert_eq!(outcome(OpKind::CondPut, STATUS_NOT_FOUND, None), Err(Error::ConditionFailed));
    assert_eq!(outcome(OpKind::Put, STATUS_COMPARE_FAILED, None), Err(Error::TransportError));
    assert_eq!(outcome(OpKind::Put, STATUS_NOT_FOUND, None), Err(Error::TransportError));
    assert_eq!(outcome(OpKind::Del, STATUS_NOT_FOUND, None), Ok(false));
    assert_eq!(outcome(OpKind::Del, STATUS_COMPARE_FAILED, None), Err(Error::TransportError));
}

#[test]
fn an_operation_resolves_once() {
    let mut op = Operation::begin(OpKind::Get);
    assert!(!op.is_resolved());
    assert!(matches!(op.state, OpState::Pending));
    op.on_response(STATUS_SUCCESS, Some(obj(1)));
    assert!(op.is_resolved());
    assert!(matches!(op.state, OpState::Completed(Some(_))));
    op.on_response(STATUS_NOT_FOUND, None);
    assert!(matches!(op.state, OpState::Completed(Some(_))));
    assert_eq!(op.kind, OpKind::Get);

    let mut op = Operation::begin(OpKind::CondPut);
    op.on_response(STATUS_COMPARE_FAILED, None);
    assert!(matches!(op.state, OpState::Failed(Error::ConditionFailed)));
    op.on_response(STATUS_SUCCESS, None);
    assert!(matches!(op.state, OpState::Failed(Error::ConditionFailed)));

    let mut op = Operation::begin(OpKind::Put);
    op.on_response(STATUS_SUCCESS, None);
    assert!(matches!(op.state, OpState::Completed(None)));
}

#[test]
fn a_stream_waits_for_every_partition() {
    let mut s = SearchStream::open(2);
    assert!(matches!(s.next(), Step::Waiting));
    s.on_item(obj(1));
    s.on_partition_done();
    s.on_item(obj(2));
    assert!(is_item(s.next(), 1));
    assert!(is_item(s.next(), 2));
    assert!(matches!(s.next(), Step::Waiting));
    s.on_partition_done();
    assert!(matches!(s.next(), Step::Finished));
    s.on_item(obj(3));
    s.on_partition_done();
    s.on_fault(Error::TransportError);
    assert!(matches!(s.next(), Step::Finished));
    assert!(!s.cancel());
}

#[test]
fn a_fault_ends_a_stream_behind_what_arrived() {
    let mut s = SearchStream::open(3);
    s.on_item(obj(1));
    s.on_fault(Error::TransportError);
    s.on_item(obj(2));
    s.on_partition_done();
    s.on_fault(Error::InvalidArgument);
    assert!(is_item(s.next(), 1));
    assert!(matches!(s.next(), Step::Failed(Error::TransportError)));
    assert!(matches!(s.next(), Step::Finished));
    assert!(matches!(s.next(), Step::Finished));
}

#[test]
fn a_stream_without_partitions_is_finished() {
    let mut s = SearchStream::open(0);
    s.on_item(obj(1));
    assert!(matches!(s.next(), Step::Finished));
    let mut s = SearchStream::finished(Ok(vec![obj(1), obj(2), obj(3)]));
    assert!(is_item(s.next(), 1));
    assert!(is_item(s.next(), 2));
    assert!(is_item(s.next(), 3));
    assert!(matches!(s.next(), Step::Finished));
    let mut s = SearchStream::finished(Err(Error::InvalidArgument));
    assert!(matches!(s.next(), Step::Failed(Error::InvalidArgument)));
    assert!(matches!(s.next(), Step::Finished));
    let mut s = SearchStream::finished(Ok(vec![]));
    assert!(matches!(s.next(), Step::Finished));
}

#[test]
fn cancelling_tells_whether_a_subscription_is_left() {
    assert!(SearchStream::open(1).cancel());
    assert!(!SearchStream::open(0).cancel());
    let mut s = SearchStream::open(2);
    s.on_item(obj(1));
    s.on_partition_done();
    assert!(is_item(s.next(), 1));
    assert!(s.cancel());
    let mut s = SearchStream::open(2);
    s.on_fault(Error::TransportError);
    assert!(!s.cancel());
    let mut s = SearchStream::open(1);
    s.on_partition_done();
    assert!(!s.cancel());
}

#[test]
fn draining_takes_what_has_arrived() {
    let mut s = SearchStream::open(2);
    s.on_item(obj(1));
    s.on_item(obj(2));
    let (items, fault) = s.drain();
    assert_eq!(items.len(), 2);
    assert_eq!(items[0].same(&obj(1)), Ok(true));
    assert_eq!(items[1].same(&obj(2)), Ok(true));
    assert_eq!(fault, None);
    assert!(matches!(s.next(), Step::Waiting));
    s.on_item(obj(3));
    s.on_fault(Error::TransportError);
    let (items, fault) = s.drain();
    assert_eq!(items.len(), 1);
    assert_eq!(items[0].same(&obj(3)), Ok(true));
    assert_eq!(fault, Some(Error::TransportError));
    assert!(matches!(s.next(), Step::Finished));
    let (items, fault) = s.drain();
    assert_eq!((items.len(), fault), (0, None));
}

#[test]
fn statuses_drive_a_stream() {
    let mut s = SearchStream::open(1);
    deliver(&mut s, STATUS_SUCCESS, Some(obj(1)));
    deliver(&mut s, STATUS_SUCCESS, Some(obj(2)));
    deliver(&mut s, STATUS_SEARCH_DONE, None);
    deliver(&mut s, STATUS_SUCCESS, Some(obj(3)));
    assert!(is_item(s.next(), 1));
    assert!(is_item(s.next(), 2));
    assert!(matches!(s.next(), Step::Finished));

    let mut s = SearchStream::open(1);
    deliver(&mut s, STATUS_SUCCESS, Some(obj(1)));
    deliver(&mut s, TIMEOUT, None);
    assert!(is_item(s.next(), 1));
    assert!(matches!(s.next(), Step::Failed(Error::TransportError)));

    let mut s = SearchStream::open(1);
    deliver(&mut s, STATUS_WRONG_TYPE, None);
    assert!(matches!(s.next(), Step::Failed(Error::InvalidArgument)));

    let mut s = SearchStream::open(1);
    deliver(&mut s, STATUS_SUCCESS, None);
    assert!(matches!(s.next(), Step::Failed(Error::TransportError)));

    let mut s = SearchStream::open(1);
    deliver(&mut s, STATUS_NOT_FOUND, None);
    assert!(matches!(s.next(), Step::Failed(Error::TransportError)));
}

#[test]
fn responses_go_to_their_requests() {
    let mut line = Pipeline::new();
    assert_eq!(line.submit(1, OpKind::Get), Ok(()));
    assert_eq!(line.submit(2, OpKind::Put), Ok(()));
    assert_eq!(line.submit(3, OpKind::CondPut), Ok(()));
    assert_eq!(line.len(), 3);
    assert!(!line.is_resolved(1));
    assert!(line.collect(1).is_none());

    assert!(line.on_response(3, STATUS_COMPARE_FAILED, None));
    assert!(line.on_response(1, STATUS_SUCCESS, Some(obj(7))));
    assert!(!line.on_response(9, STATUS_SUCCESS, None));
    assert!(line.is_resolved(1));
    assert!(line.is_resolved(3));
    assert!(!line.is_resolved(2));
    assert!(!line.is_resolved(9));

    let got = line.collect(1).unwrap();
    assert_eq!(got.kind, OpKind::Get);
    match got.state {
        OpState::Completed(Some(o)) => assert_eq!(o.same(&obj(7)), Ok(true)),
        other => panic!("unexpected state {:?}", other),
    }
    assert!(line.collect(1).is_none());
    assert_eq!(line.len(), 2);

    let refused = line.collect(3).unwrap();
    assert_eq!(refused.kind, OpKind::CondPut);
    assert!(matches!(refused.state, OpState::Failed(Error::ConditionFailed)));

    assert!(line.collect(2).is_none());
    assert!(line.on_response(2, STATUS_SUCCESS, None));
    assert!(line.on_response(2, TIMEOUT, None));
    assert!(matches!(line.collect(2).unwrap().state, OpState::Completed(None)));
    assert_eq!(line.len(), 0);
}

#[test]
fn a_request_number_is_in_flight_once() {
    let mut line = Pipeline::new();
    assert_eq!(line.submit(-1, OpKind::Get), Err(Error::TransportError));
    assert_eq!(line.submit(i64::MIN, OpKind::Get), Err(Error::TransportError));
    assert_eq!(line.len(), 0);
    assert_eq!(line.submit(0, OpKind::Get), Ok(()));
    assert_eq!(line.submit(0, OpKind::Put), Err(Error::InvalidArgument));
    assert_eq!(line.len(), 1);
    assert!(line.on_response(0, STATUS_NOT_FOUND, None));
    let op = line.collect(0).unwrap();
    assert_eq!(op.kind, OpKind::Get);
    assert!(matches!(op.state, OpState::Completed(None)));
    assert!(matches!(op.into_result(), Some(Err(Error::NotFound))));
    assert_eq!(line.submit(0, OpKind::Put), Ok(()));
}

#[test]
fn an_operation_hands_its_outcome_to_the_caller() {
    assert!(Operation::begin(OpKind::Get).into_result().is_none());

    let mut op = Operation::begin(OpKind::Get);
    op.on_response(STATUS_SUCCESS, Some(obj(4)));
    match op.into_result() {
        Some(Ok(Some(o))) => assert_eq!(o.same(&obj(4)), Ok(true)),
        other => panic!("unexpected result {:?}", other),
    }

    let mut op = Operation::begin(OpKind::GetPartial);
    op.on_response(STATUS_NOT_FOUND, None);
    assert!(matches!(op.state, OpState::Completed(None)));
    assert!(matches!(op.into_result(), Some(Err(Error::NotFound))));

    let mut op = Operation::begin(OpKind::Del);
    op.on_response(STATUS_NOT_FOUND, None);
    assert!(matches!(op.into_result(), Some(Ok(None))));

    let mut op = Operation::begin(OpKind::Put);
    op.on_response(STATUS_SUCCESS, None);
    assert!(matches!(op.into_result(), Some(Ok(None))));

    let mut op = Operation::begin(OpKind::CondPut);
    op.on_response(STATUS_NOT_FOUND, None);
    assert!(matches!(op.into_result(), Some(Err(Error::ConditionFailed))));

    let mut op = Operation::begin(OpKind::Put);
    op.on_response(TIMEOUT, None);
    assert!(matches!(op.into_result(), Some(Err(Error::TransportError))));

    let mut op = Operation::begin(OpKind::Put);
    op.on_response(STATUS_WRONG_TYPE, None);
    assert!(matches!(op.into_result(), Some(Err(Error::InvalidArgument))));
}
