use chapterhousedb::compute::{OperatorCompute, TotalOperatorCompute};
use chapterhousedb::operator_state::{
    OperatorHandlerState, OperatorInstance as HostedInstance, Status as HostedStatus,
};
use chapterhousedb::plan::{Operator, OperatorType, PhysicalPlan, Pipeline};
use chapterhousedb::query_state::{
    OperatorInstance, OperatorInstanceGroup, Query, QueryHandlerState, QueryHandlerStateError,
    Status,
};

fn producer(id: &[u8], exchange: &[u8], instances: u64) -> Operator {
    Operator {
        id: id.to_vec(),
        operator_type: OperatorType::Producer { outbound_exchange_id: exchange.to_vec() },
        compute: OperatorCompute { instances, memory_in_mib: 256, cpu_in_thousandths: 100 },
    }
}

fn exchange_op(id: &[u8]) -> Operator {
    Operator {
        id: id.to_vec(),
        operator_type: OperatorType::Exchange,
        compute: OperatorCompute { instances: 1, memory_in_mib: 64, cpu_in_thousandths: 50 },
    }
}

fn group(op: Operator, ids: &[u128]) -> OperatorInstanceGroup {
    OperatorInstanceGroup {
        pipeline_id: b"pipeline_0".to_vec(),
        operator: op,
        instances: ids
            .iter()
            .map(|id| OperatorInstance {
                id: *id,
                status: Status::Queued,
                assigned_worker_id: None,
            })
            .collect(),
    }
}

fn query_with(id: u128, groups: Vec<OperatorInstanceGroup>) -> Query {
    Query {
        id,
        query: b"select 1;".to_vec(),
        physical_plan: PhysicalPlan { pipelines: Vec::new() },
        status: Status::Queued,
        operator_instances: groups,
    }
}

#[test]
fn expanding_a_plan_yields_one_queued_instance_per_declared_count() {
    let plan = PhysicalPlan {
        pipelines: vec![Pipeline {
            id: b"pipeline_0".to_vec(),
            operators: vec![producer(b"op0", b"ex0", 3), exchange_op(b"ex0")],
        }],
    };
    let mut q = Query::new(b"select 1;".to_vec(), plan);
    assert_eq!(q.status, Status::Queued);
    q.init();
    assert_eq!(q.operator_instances.len(), 2);
    assert_eq!(q.operator_instances[0].instances.len(), 3);
    assert_eq!(q.operator_instances[1].instances.len(), 1);
    for g in &q.operator_instances {
        for inst in &g.instances {
            assert_eq!(inst.status, Status::Queued);
        }
    }
}

#[test]
fn an_instance_id_maps_to_exactly_one_query() {
    let mut state = QueryHandlerState::new();
    state.add_query(query_with(1, vec![group(producer(b"a", b"e", 2), &[10, 11])])).unwrap();
    // a second query reusing instance id 10 is rejected
    let r = state.add_query(query_with(2, vec![group(producer(b"b", b"e", 1), &[10])]));
    assert_eq!(r, Err(QueryHandlerStateError::DuplicateOperatorInstanceId(10)));
    // and a duplicate query id is rejected too
    let r = state.add_query(query_with(1, vec![group(producer(b"c", b"e", 1), &[12])]));
    assert_eq!(r, Err(QueryHandlerStateError::DuplicateQueryId(1)));
    // fresh ids are fine
    state.add_query(query_with(2, vec![group(producer(b"b", b"e", 1), &[12])])).unwrap();
    assert_eq!(state.queries.len(), 2);
}

#[test]
fn derived_status_follows_the_instances() {
    let mut state = QueryHandlerState::new();
    state.add_query(query_with(1, vec![group(producer(b"a", b"e", 2), &[10, 11])])).unwrap();
    assert_eq!(state.refresh_query_status(1).unwrap(), Status::Queued);
    state.update_operator_instance_status(1, 10, Status::Running).unwrap();
    assert_eq!(state.refresh_query_status(1).unwrap(), Status::Running);
    state.update_operator_instance_status(1, 10, Status::Complete).unwrap();
    assert_eq!(state.refresh_query_status(1).unwrap(), Status::Queued);
    state.update_operator_instance_status(1, 11, Status::Complete).unwrap();
    assert_eq!(state.refresh_query_status(1).unwrap(), Status::Complete);
    state.update_operator_instance_status(1, 11, Status::Error(b"late failure".to_vec())).unwrap();
    assert_eq!(state.refresh_query_status(1).unwrap(), Status::Error(b"late failure".to_vec()));
    assert_eq!(
        state.refresh_query_status(9),
        Err(QueryHandlerStateError::QueryNotFound(9))
    );
}

#[test]
fn sent_shutdown_only_moves_to_complete_or_error() {
    let mut state = QueryHandlerState::new();
    state.add_query(query_with(1, vec![group(exchange_op(b"e"), &[10])])).unwrap();
    state.update_operator_instance_status(1, 10, Status::SentShutdown(1000)).unwrap();
    // a running report after the shutdown is refused: the status stays
    state.update_operator_instance_status(1, 10, Status::Running).unwrap();
    let inst = state.get_operator_instance(1, 10).unwrap();
    assert_eq!(inst.status, Status::SentShutdown(1000));
    state.update_operator_instance_status(1, 10, Status::Queued).unwrap();
    let inst = state.get_operator_instance(1, 10).unwrap();
    assert_eq!(inst.status, Status::SentShutdown(1000));
    // but it may complete
    state.update_operator_instance_status(1, 10, Status::Complete).unwrap();
    let inst = state.get_operator_instance(1, 10).unwrap();
    assert_eq!(inst.status, Status::Complete);
}

#[test]
fn claim_if_queued_claims_once() {
    let mut state = QueryHandlerState::new();
    state.add_query(query_with(1, vec![group(producer(b"a", b"e", 1), &[10])])).unwrap();
    assert_eq!(state.claim_operator_instance_if_queued(1, 10), Ok(true));
    assert_eq!(state.claim_operator_instance_if_queued(1, 10), Ok(false));
    assert_eq!(
        state.claim_operator_instance_if_queued(1, 99),
        Err(QueryHandlerStateError::OperatorInstanceNotFound(99))
    );
}

#[test]
fn claim_pass_respects_the_advertised_capacity() {
    let mut state = QueryHandlerState::new();
    state
        .add_query(query_with(1, vec![group(producer(b"a", b"e", 4), &[10, 11, 12, 13])]))
        .unwrap();
    // remaining capacity {2, 512, 200} fits exactly two {1, 256, 100} claims
    let claims = state.claim_operator_instances_up_to_compute_available(&TotalOperatorCompute {
        instances: 2,
        memory_in_mib: 512,
        cpu_in_thousandths: 200,
    });
    assert_eq!(claims.len(), 2);
    assert_eq!(claims[0].op_instance_id, 10);
    assert_eq!(claims[1].op_instance_id, 11);
    for c in &claims {
        assert_eq!(c.query_id, 1);
        assert_eq!(c.pipeline_id, b"pipeline_0".to_vec());
    }
    // the claimed instances run; the rest are still queued
    assert_eq!(state.get_operator_instance(1, 10).unwrap().status, Status::Running);
    assert_eq!(state.get_operator_instance(1, 11).unwrap().status, Status::Running);
    assert_eq!(state.get_operator_instance(1, 12).unwrap().status, Status::Queued);
    // zero capacity claims nothing
    let claims = state.claim_operator_instances_up_to_compute_available(&TotalOperatorCompute {
        instances: 0,
        memory_in_mib: 0,
        cpu_in_thousandths: 0,
    });
    assert!(claims.is_empty());
}

#[test]
fn available_ids_and_instance_listing() {
    let mut state = QueryHandlerState::new();
    state
        .add_query(query_with(
            1,
            vec![group(producer(b"a", b"ex0", 2), &[10, 11]), group(exchange_op(b"ex0"), &[20])],
        ))
        .unwrap();
    let ids = state.get_available_operator_instance_ids(1).unwrap();
    assert_eq!(ids, vec![10, 11, 20]);
    state.update_operator_instance_status(1, 11, Status::Running).unwrap();
    let ids = state.get_available_operator_instance_ids(1).unwrap();
    assert_eq!(ids, vec![10, 20]);
    let insts = state.get_operator_instances(1, &b"ex0".to_vec()).unwrap();
    assert_eq!(insts.len(), 1);
    assert_eq!(insts[0].id, 20);
    let compute = state.get_operator_instance_compute(1, 10).unwrap();
    assert_eq!(compute.memory_in_mib, 256);
    assert_eq!(state.operator_instance_is_producer(1, 10), Ok(true));
    assert_eq!(state.operator_instance_is_producer(1, 20), Ok(false));
    assert_eq!(state.get_outbound_exchange_id(1, 10).unwrap(), b"ex0".to_vec());
}

#[test]
fn exchanges_without_live_producers_are_found() {
    let mut state = QueryHandlerState::new();
    state
        .add_query(query_with(
            1,
            vec![group(producer(b"a", b"ex0", 1), &[10]), group(exchange_op(b"ex0"), &[20])],
        ))
        .unwrap();
    // the producer is still queued, so the exchange still has a live feeder
    assert!(state.get_exchange_ids_without_any_consumers(1).unwrap().is_empty());
    state.update_operator_instance_status(1, 10, Status::Complete).unwrap();
    let dead = state.get_exchange_ids_without_any_consumers(1).unwrap();
    assert_eq!(dead, vec![b"ex0".to_vec()]);
}

#[test]
fn worker_compute_stays_within_the_allowance() {
    let allowed = TotalOperatorCompute { instances: 2, memory_in_mib: 512, cpu_in_thousandths: 200 };
    let mut host = OperatorHandlerState::new(allowed);
    let hosted = |id: u128| HostedInstance {
        id,
        status: HostedStatus::Running,
        query_id: 1,
        pipeline_id: b"pipeline_0".to_vec(),
        operator: producer(b"a", b"e", 1),
    };
    assert_eq!(host.add_operator_instance(hosted(1)), Ok(()));
    assert_eq!(host.add_operator_instance(hosted(2)), Ok(()));
    // a third instance would exceed the allowance and is refused
    assert_eq!(host.add_operator_instance(hosted(3)), Err(()));
    let used = host.total_operator_compute();
    assert_eq!(used.instances, 2);
    assert_eq!(used.memory_in_mib, 512);
    assert_eq!(used.cpu_in_thousandths, 200);
    assert_eq!(host.get_allowed_compute(), allowed);
}

#[test]
fn compute_arithmetic() {
    let mut a = TotalOperatorCompute { instances: 10, memory_in_mib: 20, cpu_in_thousandths: 30 };
    let b = TotalOperatorCompute { instances: 1, memory_in_mib: 2, cpu_in_thousandths: 3 };
    a.add(&b);
    assert_eq!(a, TotalOperatorCompute { instances: 11, memory_in_mib: 22, cpu_in_thousandths: 33 });
    a.subtract(&TotalOperatorCompute { instances: 20, memory_in_mib: 2, cpu_in_thousandths: 3 });
    assert_eq!(a, TotalOperatorCompute { instances: 0, memory_in_mib: 20, cpu_in_thousandths: 30 });
    assert!(a.any_depleated());
    assert!(!b.any_depleated());
    assert!(a.any_greater_than(&b));
    let mut c = TotalOperatorCompute { instances: 5, memory_in_mib: 300, cpu_in_thousandths: 150 };
    c.subtract_single_operator_compute(&OperatorCompute {
        instances: 9,
        memory_in_mib: 256,
        cpu_in_thousandths: 100,
    });
    assert_eq!(c, TotalOperatorCompute { instances: 4, memory_in_mib: 44, cpu_in_thousandths: 50 });
    c.add_single_operator_compute(&OperatorCompute {
        instances: 9,
        memory_in_mib: 6,
        cpu_in_thousandths: 10,
    });
    assert_eq!(c, TotalOperatorCompute { instances: 5, memory_in_mib: 50, cpu_in_thousandths: 60 });
}
