use pybox::guest_mem::GuestMem;
use pybox::packet::PACKET_SIZE;
use pybox::handlers::{
    prepare_upcall_packets, read_packet_region, write_upcall_response, HandlerTable,
};

#[test]
fn handler_table_register_lookup_unregister() {
    let mut table: HandlerTable<String> = HandlerTable::new();
    table.register(42, "echo".to_string());
    assert_eq!(table.lookup(42), Some(&"echo".to_string()));
    table.register(42, "echo2".to_string());
    assert_eq!(table.lookup(42), Some(&"echo2".to_string()));
    assert!(table.unregister(42));
    assert_eq!(table.lookup(42), None);
    assert!(!table.unregister(42));
}

#[test]
fn unknown_handle_is_not_dispatched() {
    // A missing handle makes the dispatcher answer -1 without touching the
    // guest: the lookup is the decision.
    let table: HandlerTable<String> = HandlerTable::new();
    let status = match table.lookup(7) {
        Some(_) => 0,
        None => -1,
    };
    assert_eq!(status, -1);
}

#[test]
fn upcall_echo_round_trip_through_guest_memory() {
    // The full data path of an upcall, with the handler invocation itself
    // standing outside: the guest stages its request, the host reads it,
    // an echo handler answers with the same bytes, the host publishes the
    // response, and the guest copies it out.
    let mut mem = GuestMem::new(4096);
    let mut table: HandlerTable<String> = HandlerTable::new();
    table.register(42, "echo".to_string());

    let (req_ptr, resp_ptr) = prepare_upcall_packets(&mut mem, &b"hi".to_vec())
        .expect("the heap holds the packets");

    // Host side of the dispatch.
    let request = read_packet_region(&mem, req_ptr).expect("request packet is readable");
    assert_eq!(request, b"hi".to_vec());
    assert!(table.lookup(42).is_some());
    let response = request.clone();
    assert!(write_upcall_response(&mut mem, resp_ptr, &response));

    // Guest side: copy the response out.
    let returned = read_packet_region(&mem, resp_ptr).expect("response packet is readable");
    assert_eq!(returned, b"hi".to_vec());
}

#[test]
fn packets_are_two_packed_words() {
    assert_eq!(PACKET_SIZE, 8);
}

#[test]
fn rpc_request_bytes_cross_unaltered() {
    // The byte path under the JSON-RPC layer: the serialised request the
    // guest stages is exactly what the registered handler receives, and
    // the serialised answer comes back byte for byte.  The JSON encoding
    // and decoding themselves run inside the interpreters on either side.
    let mut mem = GuestMem::new(4096);
    let mut table: HandlerTable<String> = HandlerTable::new();
    table.register(7, "adder".to_string());

    let request_doc = b"{\"args\": [2, 3], \"kwargs\": {}}".to_vec();
    let (req_ptr, resp_ptr) =
        prepare_upcall_packets(&mut mem, &request_doc).expect("request fits");
    let seen = read_packet_region(&mem, req_ptr).expect("request packet is readable");
    assert_eq!(seen, request_doc);
    assert!(table.lookup(7).is_some());

    let answer_doc = b"{\"result\": 5}".to_vec();
    assert!(write_upcall_response(&mut mem, resp_ptr, &answer_doc));
    let returned = read_packet_region(&mem, resp_ptr).expect("response packet is readable");
    assert_eq!(returned, answer_doc);
}

#[test]
fn empty_request_and_response_cross_cleanly() {
    let mut mem = GuestMem::new(1024);
    let (req_ptr, resp_ptr) =
        prepare_upcall_packets(&mut mem, &Vec::new()).expect("empty request fits");
    let request = read_packet_region(&mem, req_ptr).expect("request packet is readable");
    assert!(request.is_empty());
    assert!(write_upcall_response(&mut mem, resp_ptr, &Vec::new()));
    let returned = read_packet_region(&mem, resp_ptr).expect("response packet is readable");
    assert!(returned.is_empty());
}

#[test]
fn response_fails_when_heap_is_exhausted() {
    let mut mem = GuestMem::new(64);
    let (_req_ptr, resp_ptr) =
        prepare_upcall_packets(&mut mem, &b"x".to_vec()).expect("small request fits");
    let big = vec![0u8; 64];
    assert!(!write_upcall_response(&mut mem, resp_ptr, &big));
}
