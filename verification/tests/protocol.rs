use lld_leasing::benchmark::LoopResult;
use lld_leasing::context::LeasingResponse;
use lld_leasing::context_naive::ContextNaive;
use lld_leasing::database::Database;
use lld_leasing::http_api::RestLeasingResponse;
use lld_leasing::http_api::to_rest_response;
use lld_leasing::tcp_api::{client_validity_from_response, encode_tcp_response};
use lld_leasing::utils::{
    generate_random_id, generate_random_u64, get_current_time, pack_tcp_packet, unpack_tcp_packet,
};
use lld_leasing::LldError;

#[test]
fn packet_layout_is_big_endian() {
    let packet = pack_tcp_packet(258, 772, 1000);
    assert_eq!(
        packet,
        [
            0, 0, 0, 0, 0, 0, 1, 2, // 258
            0, 0, 0, 0, 0, 0, 3, 4, // 772
            0, 0, 0, 0, 0, 0, 3, 232, // 1000
        ]
    );
}

#[test]
fn unpack_reads_back_duration_and_encodes_ids() {
    let packet = pack_tcp_packet(42, 0, 5000);
    let (application_id, instance_id, duration) = unpack_tcp_packet(packet);
    // base64 of the eight big-endian bytes of 42 and of 0
    assert_eq!(application_id, "AAAAAAAAACo=".to_string());
    assert_eq!(instance_id, "AAAAAAAAAAA=".to_string());
    assert_eq!(duration, 5000);
}

#[test]
fn tcp_round_trip_grants_a_fresh_lease() {
    // the TCP request (resource 42, holder 0, duration 5000) against an
    // empty store
    let packet = pack_tcp_packet(42, 0, 5000);
    let (application_id, instance_id, duration) = unpack_tcp_packet(packet);
    let receipt_time = 77_000;
    let db = Database::open().unwrap();
    let mut ctx = ContextNaive::new(db).unwrap();
    let response = ctx.request_leasing(application_id, instance_id, duration, receipt_time);
    assert_eq!(
        response.as_ref().unwrap(),
        &LeasingResponse::Granted { validity: receipt_time + 5000 }
    );
    let byte = encode_tcp_response(&response);
    assert_eq!(byte, 48);
    // and the client derives its own validity from the grant byte
    assert_eq!(
        client_validity_from_response(byte, duration, receipt_time),
        Some(receipt_time + 5000)
    );
    assert_eq!(client_validity_from_response(49, duration, receipt_time), None);
}

#[test]
fn response_bytes_never_conflate_denial_and_malfunction() {
    assert_eq!(
        encode_tcp_response(&Ok(LeasingResponse::Granted { validity: 9 })),
        48
    );
    assert_eq!(encode_tcp_response(&Ok(LeasingResponse::Rejected)), 49);
    assert_eq!(
        encode_tcp_response(&Err(LldError::DatabaseError { code: None, message: None })),
        50
    );
}

#[test]
fn rest_responses_mirror_the_engine_answer() {
    assert_eq!(
        to_rest_response(Ok(LeasingResponse::Granted { validity: 123 })),
        RestLeasingResponse::Granted { validity: 123 }
    );
    assert_eq!(
        to_rest_response(Ok(LeasingResponse::Rejected)),
        RestLeasingResponse::Rejected
    );
    assert_eq!(
        to_rest_response(Err(LldError::WrappedError("io error", String::new()))),
        RestLeasingResponse::Error
    );
}

#[test]
fn random_ids_have_the_base64_length() {
    let id8 = generate_random_id::<8>();
    assert_eq!(id8.len(), 12);
    let id16 = generate_random_id::<16>();
    assert_eq!(id16.len(), 24);
}

#[test]
fn random_u64_is_callable() {
    let a = generate_random_u64();
    let b = generate_random_u64();
    // no contract on the values; just exercise the wrapper
    let _ = a.wrapping_add(b);
}

#[test]
fn clock_reports_a_post_epoch_time() {
    let t1 = get_current_time();
    let t2 = get_current_time();
    assert!(t2 >= t1);
    assert!(t1 > 1_500_000_000_000); // later than 2017 in epoch millis
}

#[test]
fn loop_results_add_field_by_field() {
    let a = LoopResult::new_granted(5).add(LoopResult::new_rejected(7));
    let b = a.add(LoopResult::new_timeout(11)).add(LoopResult::new_error(13));
    assert_eq!(b.granted_time, 5);
    assert_eq!(b.granted_count, 1);
    assert_eq!(b.rejected_time, 7);
    assert_eq!(b.rejected_count, 1);
    assert_eq!(b.timeout_time, 11);
    assert_eq!(b.timeout_count, 1);
    assert_eq!(b.error_time, 13);
    assert_eq!(b.error_count, 1);
    let empty = LoopResult::new();
    assert_eq!(empty.granted_count + empty.rejected_count, 0);
}
