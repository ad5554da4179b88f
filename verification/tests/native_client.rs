use celeborn_shuffle::client::CelebornClientConfig;
use celeborn_shuffle::error::{CelebornError, NativeCall};
use celeborn_shuffle::ffi::{
    call_outcome, to_ffi_i32, MapperEndCall, ReadPartitionCall, ShuffleCelebornClient,
};

fn config() -> CelebornClientConfig {
    CelebornClientConfig {
        lm_host: "lm.example".to_string(),
        lm_port: 9097,
        app_id: "app-1".to_string(),
        compression: "zstd".to_string(),
    }
}

fn connected() -> ShuffleCelebornClient {
    ShuffleCelebornClient::connect(&config(), Ok(())).unwrap()
}

const TOO_LARGE: u32 = i32::MAX as u32 + 1;

#[test]
fn default_config() {
    let config = CelebornClientConfig::default();
    assert_eq!(config.lm_host, "");
    assert_eq!(config.lm_port, 0);
    assert_eq!(config.app_id, "");
    assert_eq!(config.compression, "lz4");
}

#[test]
fn connect_request_spells_the_codec_in_upper_case() {
    let request = config().connect_request();
    assert_eq!(request.app_id, "app-1");
    assert_eq!(request.push_buffer_max_size, 0);
    assert_eq!(request.shuffle_compression_codec, "ZSTD");
    assert_eq!(request.lm_host, "lm.example");
    assert_eq!(request.lm_port, 9097);
    assert_eq!(
        CelebornClientConfig::default()
            .connect_request()
            .shuffle_compression_codec,
        "LZ4"
    );
}

#[test]
fn upper_casing_follows_unicode() {
    let mut odd = config();
    odd.compression = "stra\u{df}e-1".to_string();
    assert_eq!(odd.connect_request().shuffle_compression_codec, "STRASSE-1");
}

#[test]
fn failed_connect_names_host_and_port() {
    let mut config = config();
    config.lm_port = -1;
    let error = ShuffleCelebornClient::connect(&config, Err("refused".to_string())).unwrap_err();
    assert_eq!(
        error.message(),
        "Failed to connect to Celeborn LifecycleManager at lm.example:-1: refused"
    );
}

#[test]
fn ids_up_to_the_limit_are_converted() {
    assert_eq!(to_ffi_i32(0, "map_id").unwrap(), 0);
    assert_eq!(to_ffi_i32(i32::MAX as u64, "map_id").unwrap(), i32::MAX);
    let error = to_ffi_i32(2_147_483_648, "map_id").unwrap_err();
    assert_eq!(
        error.message(),
        "map_id 2147483648 overflows i32 (Celeborn FFI limit)"
    );
    assert!(to_ffi_i32(u64::MAX, "x").is_err());
}

#[test]
fn registered_shuffle_is_served() {
    let mut client = connected();
    client.register_shuffle(7, 3, 5);
    let call = client.push_data(7, 1, 0, 4, b"data").unwrap();
    assert_eq!(call.shuffle_id, 7);
    assert_eq!(call.map_id, 1);
    assert_eq!(call.attempt_id, 0);
    assert_eq!(call.partition_id, 4);
    assert_eq!(call.data, b"data".to_vec());
    assert_eq!(call.num_mappers, 3);
    assert_eq!(call.num_partitions, 5);
    assert_eq!(
        client.mapper_end(7, 1, 0).unwrap(),
        MapperEndCall {
            shuffle_id: 7,
            map_id: 1,
            attempt_id: 0,
            num_mappers: 3
        }
    );
    assert_eq!(
        client.read_partition(7, 4).unwrap(),
        ReadPartitionCall {
            shuffle_id: 7,
            partition_id: 4,
            num_mappers: 3
        }
    );
}

#[test]
fn unregistered_shuffle_is_refused() {
    let mut client = connected();
    client.register_shuffle(7, 3, 5);
    client.register_shuffle(8, 1, 1);
    client.unregister_shuffle(7);
    client.unregister_shuffle(7);
    let text = "shuffle 7 not registered; call register_shuffle first";
    assert_eq!(
        client.push_data(7, 0, 0, 0, b"").unwrap_err().message(),
        text
    );
    assert_eq!(client.mapper_end(7, 0, 0).unwrap_err().message(), text);
    assert_eq!(client.read_partition(7, 0).unwrap_err().message(), text);
    assert!(client.read_partition(8, 0).is_ok());
    // The missing registration is reported before the identifier that is too large.
    assert!(matches!(
        client.read_partition(u64::MAX, TOO_LARGE),
        Err(CelebornError::NotRegistered {
            shuffle_id: u64::MAX
        })
    ));
}

#[test]
fn later_registration_replaces_the_sizes() {
    let mut client = connected();
    client.register_shuffle(1, 2, 3);
    client.register_shuffle(1, 4, 5);
    let call = client.push_data(1, 0, 0, 0, b"").unwrap();
    assert_eq!(call.num_mappers, 4);
    assert_eq!(call.num_partitions, 5);
}

fn overflow_name(error: CelebornError) -> String {
    match error {
        CelebornError::IdOverflow { name, .. } => name,
        other => panic!("unexpected error {other:?}"),
    }
}

#[test]
fn first_overflowing_id_is_reported() {
    let mut client = connected();
    let big = TOO_LARGE as u64;
    client.register_shuffle(big, TOO_LARGE, TOO_LARGE);
    client.register_shuffle(1, TOO_LARGE, TOO_LARGE);
    client.register_shuffle(2, 1, TOO_LARGE);

    let push = |s: u64, m: u32, a: u32, p: u32| {
        overflow_name(client.push_data(s, m, a, p, b"").unwrap_err())
    };
    assert_eq!(
        push(big, TOO_LARGE, TOO_LARGE, TOO_LARGE),
        "shuffle_id".to_string()
    );
    assert_eq!(push(1, TOO_LARGE, TOO_LARGE, TOO_LARGE), "map_id");
    assert_eq!(push(1, 0, TOO_LARGE, TOO_LARGE), "attempt_id");
    assert_eq!(push(1, 0, 0, TOO_LARGE), "partition_id");
    assert_eq!(push(1, 0, 0, 0), "num_mappers");
    assert_eq!(push(2, 0, 0, 0), "num_partitions");

    let end = |s: u64, m: u32, a: u32| overflow_name(client.mapper_end(s, m, a).unwrap_err());
    assert_eq!(end(big, TOO_LARGE, TOO_LARGE), "shuffle_id");
    assert_eq!(end(1, TOO_LARGE, TOO_LARGE), "map_id");
    assert_eq!(end(1, 0, TOO_LARGE), "attempt_id");
    assert_eq!(end(1, 0, 0), "num_mappers");
    assert!(client.mapper_end(2, 0, 0).is_ok());

    let read = |s: u64, p: u32| overflow_name(client.read_partition(s, p).unwrap_err());
    assert_eq!(read(big, TOO_LARGE), "shuffle_id");
    assert_eq!(read(1, TOO_LARGE), "partition_id");
    assert_eq!(read(1, 0), "num_mappers");
    assert!(client.read_partition(2, 0).is_ok());
}

#[test]
fn outcomes_of_native_calls() {
    assert!(call_outcome(NativeCall::PushData, Ok(Ok(()))).is_ok());
    assert_eq!(
        call_outcome(NativeCall::PushData, Ok(Err("boom".to_string())))
            .unwrap_err()
            .message(),
        "Celeborn push_data failed: boom"
    );
    assert_eq!(
        call_outcome(NativeCall::MapperEnd, Err("gone".to_string()))
            .unwrap_err()
            .message(),
        "Celeborn mapper_end task panicked: gone"
    );
}

#[test]
fn messages_of_the_other_failures() {
    let error = "why".to_string();
    assert_eq!(
        CelebornError::LockPoisoned {
            error: error.clone()
        }
        .message(),
        "shuffle_meta lock poisoned: why"
    );
    assert_eq!(
        CelebornError::DecodeFailed { error }.message(),
        "Celeborn IPC stream decode error: why"
    );
}

#[test]
fn corrupt_header_shows_at_most_64_bytes() {
    let report = |captured: Vec<u8>| {
        CelebornError::CorruptHeader {
            shuffle_id: 1,
            partition_id: 2,
            num_mappers: 3,
            captured,
            error: "bad".to_string(),
        }
        .message()
    };
    assert_eq!(
        report(vec![0, 10, 255]),
        "Celeborn: corrupt Arrow IPC stream header in partition data (shuffle_id=1, \
         partition_id=2, num_mappers=3, buffer_len=3, first_3_bytes=[0, 10, 255], ipc_error=bad)"
    );
    let long = vec![7u8; 100];
    assert_eq!(
        report(long.clone()),
        format!(
            "Celeborn: corrupt Arrow IPC stream header in partition data (shuffle_id=1, \
             partition_id=2, num_mappers=3, buffer_len=100, first_64_bytes={:?}, ipc_error=bad)",
            &long[..64]
        )
    );
    assert_eq!(
        report(vec![]),
        "Celeborn: corrupt Arrow IPC stream header in partition data (shuffle_id=1, \
         partition_id=2, num_mappers=3, buffer_len=0, first_0_bytes=[], ipc_error=bad)"
    );
}
