use lv2_marshal::state::{StateErr, Storage, StoreHandle};
use lv2_marshal::urid::Urid;

const FLOAT_TYPE: u32 = 10;
const VECTOR_TYPE: u32 = 11;

#[test]
fn test_save_n_restore() {
    let float_type = Urid::new(FLOAT_TYPE).unwrap();
    let vector_type = Urid::new(VECTOR_TYPE).unwrap();
    let key_internal = Urid::new(1000).unwrap();
    let key_audio = Urid::new(1001).unwrap();

    let internal: f32 = 17.0;
    let audio: Vec<f32> = (0..32).map(|f| f as f32).collect();
    let audio_bits: Vec<u32> = audio.iter().map(|v| v.to_bits()).collect();

    let mut storage = Storage::new();

    // Save pass: one draft per key, then one atomic commit.
    let mut store = StoreHandle::new();
    store.draft(key_internal);
    store.draft_write_float(float_type, internal.to_bits());
    store.draft(key_audio);
    store.draft_begin_vector(vector_type, float_type);
    store.draft_append_elems(&audio_bits);
    store.draft_end();
    store.commit_all(&mut storage).unwrap();

    // Restore pass, into a fresh plugin's state.
    let handle = storage.retrieve_handle();
    let restored_internal = f32::from_bits(
        handle.retrieve(key_internal).unwrap().read_float_bits(float_type).unwrap(),
    );
    let restored_audio: Vec<f32> = handle
        .retrieve(key_audio)
        .unwrap()
        .read_vector(vector_type, float_type)
        .unwrap()
        .into_iter()
        .map(f32::from_bits)
        .collect();

    assert_eq!(17.0, restored_internal);
    assert_eq!(32, restored_audio.len());
    assert_eq!(audio, restored_audio);
}

#[test]
fn interrupted_pass_commits_nothing() {
    let float_type = Urid::new(FLOAT_TYPE).unwrap();
    let vector_type = Urid::new(VECTOR_TYPE).unwrap();
    let key_done = Urid::new(2000).unwrap();
    let key_unfinished = Urid::new(2001).unwrap();

    let mut storage = Storage::new();
    let mut store = StoreHandle::new();
    store.draft(key_done);
    store.draft_write_float(float_type, 1.5f32.to_bits());
    store.draft(key_unfinished);
    store.draft_begin_vector(vector_type, float_type);
    // The vector draft's header is reserved but never finalized.
    let err = store.commit_all(&mut storage).unwrap_err();
    assert_eq!(err, StateErr::Unfinished);

    // No draft from the pass is visible to a subsequent retrieve.
    assert!(storage.retrieve(key_done).is_none());
    assert!(storage.retrieve(key_unfinished).is_none());
}

#[test]
fn empty_draft_is_unfinished_too() {
    let key = Urid::new(3000).unwrap();
    let mut storage = Storage::new();
    let mut store = StoreHandle::new();
    store.draft(key);
    assert_eq!(store.commit_all(&mut storage), Err(StateErr::Unfinished));
    assert!(storage.retrieve(key).is_none());
}

#[test]
fn later_commit_overrides_a_key_and_leaves_others() {
    let float_type = Urid::new(FLOAT_TYPE).unwrap();
    let key_a = Urid::new(10).unwrap();
    let key_b = Urid::new(11).unwrap();

    let mut storage = Storage::new();
    let mut store = StoreHandle::new();
    store.draft(key_a);
    store.draft_write_float(float_type, 1.0f32.to_bits());
    store.draft(key_b);
    store.draft_write_float(float_type, 2.0f32.to_bits());
    store.commit_all(&mut storage).unwrap();

    let mut store = StoreHandle::new();
    store.draft(key_a);
    store.draft_write_float(float_type, 3.0f32.to_bits());
    store.commit_all(&mut storage).unwrap();

    let a = storage.retrieve(key_a).unwrap().read_float_bits(float_type).unwrap();
    let b = storage.retrieve(key_b).unwrap().read_float_bits(float_type).unwrap();
    assert_eq!(f32::from_bits(a), 3.0);
    assert_eq!(f32::from_bits(b), 2.0);
}

#[test]
fn restore_does_not_consume_the_store() {
    let float_type = Urid::new(FLOAT_TYPE).unwrap();
    let key = Urid::new(12).unwrap();

    let mut storage = Storage::new();
    let mut store = StoreHandle::new();
    store.draft(key);
    store.draft_write_float(float_type, 4.5f32.to_bits());
    store.commit_all(&mut storage).unwrap();

    for _ in 0..3 {
        let got = storage.retrieve(key).unwrap().read_float_bits(float_type).unwrap();
        assert_eq!(f32::from_bits(got), 4.5);
    }
    assert!(storage.retrieve(Urid::new(13).unwrap()).is_none());
}

#[test]
fn typed_read_of_a_stored_record_checks_the_type() {
    let float_type = Urid::new(FLOAT_TYPE).unwrap();
    let other_type = Urid::new(99).unwrap();
    let key = Urid::new(14).unwrap();

    let mut storage = Storage::new();
    let mut store = StoreHandle::new();
    store.draft(key);
    store.draft_write_float(float_type, 1.0f32.to_bits());
    store.commit_all(&mut storage).unwrap();

    let atom = storage.retrieve(key).unwrap();
    assert!(atom.read_float_bits(other_type).is_none());
    assert!(atom.read_float_bits(float_type).is_some());
}
