use pcl_seal::provision::SGX_AESGCM_KEY_SIZE;
use pcl_seal::seal::{
    calc_raw_sealed_data_size, get_sealed_pcl_key_len, key_from_file, Event, Phase, SealedKey,
    PCL_SEALED_KEY_SIZE, SEALED_DATA_SIZE, SGX_PCL_GUID, SGX_PCL_GUID_SIZE,
};
use pcl_seal::status::{SGX_ERROR_INVALID_PARAMETER, SGX_ERROR_UNEXPECTED, SGX_SUCCESS};

fn finished(s: &SealedKey) -> u32 {
    match s.phase() {
        Phase::Finished { status } => *status,
        _ => panic!("not finished"),
    }
}

fn key() -> Vec<u8> {
    (1..=16).collect()
}

#[test]
fn sealed_sizes() {
    assert_eq!(get_sealed_pcl_key_len(), 592);
    assert_eq!(PCL_SEALED_KEY_SIZE, 592);
    assert_eq!(calc_raw_sealed_data_size(0, 0), 560);
    assert_eq!(calc_raw_sealed_data_size(1, 2), 563);
    assert_eq!(calc_raw_sealed_data_size(u32::MAX - 561, 1), u32::MAX);
    assert_eq!(calc_raw_sealed_data_size(u32::MAX - 562, 1), u32::MAX - 1);
    assert_eq!(calc_raw_sealed_data_size(u32::MAX, 1), u32::MAX);
    assert_eq!(calc_raw_sealed_data_size(u32::MAX - 5, 3), u32::MAX);
}

#[test]
fn sizes_are_those_of_the_platform() {
    assert_eq!(SEALED_DATA_SIZE as usize, std::mem::size_of::<sgx_types::sgx_sealed_data_t>());
    assert_eq!(SGX_PCL_GUID_SIZE, sgx_types::SGX_PCL_GUID_SIZE);
    assert_eq!(SGX_PCL_GUID, sgx_types::SGX_PCL_GUID);
    assert_eq!(SGX_AESGCM_KEY_SIZE, sgx_types::SGX_AESGCM_KEY_SIZE);
}

#[test]
fn statuses_are_those_of_the_platform() {
    assert_eq!(SGX_SUCCESS, sgx_types::sgx_status_t::SGX_SUCCESS as u32);
    assert_eq!(SGX_ERROR_UNEXPECTED, sgx_types::sgx_status_t::SGX_ERROR_UNEXPECTED as u32);
    assert_eq!(
        SGX_ERROR_INVALID_PARAMETER,
        sgx_types::sgx_status_t::SGX_ERROR_INVALID_PARAMETER as u32
    );
}

#[test]
fn a_key_is_sixteen_bytes() {
    assert_eq!(key_from_file(&key()).unwrap().to_vec(), key());
    assert_eq!(key_from_file(&key()[..15]), None);
    assert_eq!(key_from_file(&[0; 17]), None);
    assert_eq!(key_from_file(&[]), None);
}

#[test]
fn key_is_read_sealed_and_handed_out() {
    let s = SealedKey::new(592);
    assert!(matches!(s.phase(), Phase::ReadKeyFile));
    let s = s.step(Event::FileRead(Some(key())));
    match s.phase() {
        Phase::Seal { aad, key: sealed } => {
            assert_eq!(*aad, SGX_PCL_GUID);
            assert_eq!(sealed.to_vec(), key());
        }
        _ => panic!("the key is sealed next"),
    }
    let s = s.step(Event::Sealed { failure: None });
    assert!(matches!(s.phase(), Phase::Export { room: 592 }));
    let s = s.step(Event::Exported { written: true });
    assert_eq!(finished(&s), SGX_SUCCESS);
}

#[test]
fn files_without_a_key_are_refused() {
    for contents in [None, Some(vec![]), Some(vec![0; 15]), Some(vec![0; 17])] {
        let s = SealedKey::new(592).step(Event::FileRead(contents));
        assert_eq!(finished(&s), SGX_ERROR_UNEXPECTED);
    }
}

#[test]
fn failure_to_seal_is_returned() {
    let s = SealedKey::new(592).step(Event::FileRead(Some(key())));
    let s = s.step(Event::Sealed { failure: Some(0x3001) });
    assert_eq!(finished(&s), 0x3001);
}

#[test]
fn a_buffer_that_is_too_small_is_a_wrong_parameter() {
    let s = SealedKey::new(1).step(Event::FileRead(Some(key())));
    let s = s.step(Event::Sealed { failure: None }).step(Event::Exported { written: false });
    assert_eq!(finished(&s), SGX_ERROR_INVALID_PARAMETER);
}

#[test]
fn stray_events_change_no_sealing() {
    let s = SealedKey::new(592).step(Event::Sealed { failure: None });
    assert!(matches!(s.phase(), Phase::ReadKeyFile));
    let s = s.step(Event::Exported { written: true });
    assert!(matches!(s.phase(), Phase::ReadKeyFile));
    let s = s.step(Event::FileRead(None)).step(Event::FileRead(Some(key())));
    assert_eq!(finished(&s), SGX_ERROR_UNEXPECTED);
}
