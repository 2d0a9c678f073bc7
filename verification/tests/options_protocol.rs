use lv2_marshal::atom::UnidentifiedAtom;
use lv2_marshal::options::{
    get_options, set_options, try_extract_subject, LV2Options, OptionEntry, Options, OptionsErr,
    OptionWriter, Subject, CONTEXT_BLANK, CONTEXT_INSTANCE, CONTEXT_PORT, CONTEXT_RESOURCE,
    OPTIONS_ERR_BAD_KEY, OPTIONS_ERR_BAD_SUBJECT, OPTIONS_ERR_BAD_VALUE, OPTIONS_ERR_UNKNOWN,
};
use lv2_marshal::urid::Urid;

const INT_TYPE: u32 = 9;
const FLOAT_TYPE: u32 = 10;
const KEY_ANSWER: u32 = 100;
const KEY_RATE: u32 = 101;

#[test]
fn each_context_kind_maps_to_one_subject_variant() {
    assert!(matches!(try_extract_subject(CONTEXT_INSTANCE, 0), Ok(Subject::Instance)));
    match try_extract_subject(CONTEXT_RESOURCE, 55) {
        Ok(Subject::Resource(urid)) => assert_eq!(urid.get(), 55),
        other => panic!("expected a resource subject, got {:?}", other),
    }
    assert!(matches!(try_extract_subject(CONTEXT_BLANK, 7), Ok(Subject::Blank(7))));
    assert!(matches!(try_extract_subject(CONTEXT_PORT, 3), Ok(Subject::Port(3))));
}

#[test]
fn out_of_range_context_yields_bad_subject_and_no_subject() {
    let err = try_extract_subject(4, 0).unwrap_err();
    assert_eq!(err.bits, OPTIONS_ERR_BAD_SUBJECT);
    // A resource context needs a valid (nonzero) URID as its subject.
    let err = try_extract_subject(CONTEXT_RESOURCE, 0).unwrap_err();
    assert_eq!(err.bits, OPTIONS_ERR_BAD_SUBJECT);
}

/// A plugin with one integer option under `KEY_ANSWER`; any other key is
/// unrecognized.
struct AnswerPlugin {
    answer: i32,
}

impl Options for AnswerPlugin {
    fn get(
        &self,
        key: Urid,
        _subject: Subject,
        writer: &mut OptionWriter,
    ) -> Result<(), OptionsErr> {
        if key.get() == KEY_ANSWER {
            writer.init_int(Urid::new(INT_TYPE).unwrap(), self.answer)
        } else {
            Err(OptionsErr::bad_key())
        }
    }

    fn set(&self, key: Urid, _subject: Subject, value: &UnidentifiedAtom) -> Result<
        (),
        OptionsErr,
    > {
        if key.get() != KEY_ANSWER {
            return Err(OptionsErr::bad_key());
        }
        match value.read_int(Urid::new(INT_TYPE).unwrap()) {
            Some(_) => Ok(()),
            None => Err(OptionsErr::bad_value()),
        }
    }
}

fn int_entry(key: u32, type_: u32) -> OptionEntry {
    OptionEntry { context: CONTEXT_INSTANCE, subject: 0, key, type_, value: vec![0, 0, 0, 0] }
}

#[test]
fn get_fills_a_well_formed_entry() {
    let plugin = AnswerPlugin { answer: 42 };
    let mut entries = vec![int_entry(KEY_ANSWER, INT_TYPE)];
    let ret = get_options(&plugin, &mut entries);
    assert_eq!(ret, 0);
    assert_eq!(entries[0].value, 42i32.to_le_bytes().to_vec());
}

#[test]
fn one_malformed_entry_does_not_stop_the_batch() {
    let plugin = AnswerPlugin { answer: 42 };
    // The second entry requests the wrong type: the plugin writes an integer
    // record, so that entry fails with the bad-value flag alone, while the
    // first entry is still correctly written.
    let mut entries = vec![int_entry(KEY_ANSWER, INT_TYPE), int_entry(KEY_ANSWER, FLOAT_TYPE)];
    let ret = get_options(&plugin, &mut entries);
    assert_eq!(ret, OPTIONS_ERR_BAD_VALUE);
    assert_eq!(entries[0].value, 42i32.to_le_bytes().to_vec());
    assert_eq!(entries[1].value, vec![0, 0, 0, 0]);
}

#[test]
fn invalid_subject_flags_the_entry_and_leaves_it_unchanged() {
    let plugin = AnswerPlugin { answer: 1 };
    let mut entries = vec![int_entry(KEY_ANSWER, INT_TYPE)];
    entries[0].context = 9;
    let ret = get_options(&plugin, &mut entries);
    assert_eq!(ret, OPTIONS_ERR_BAD_SUBJECT);
    assert_eq!(entries[0].value, vec![0, 0, 0, 0]);
}

#[test]
fn unrecognized_key_accumulates_bad_key() {
    let plugin = AnswerPlugin { answer: 1 };
    let mut entries = vec![int_entry(KEY_RATE, INT_TYPE), int_entry(KEY_ANSWER, INT_TYPE)];
    let ret = get_options(&plugin, &mut entries);
    assert_eq!(ret, OPTIONS_ERR_BAD_KEY);
    assert_eq!(entries[1].value, 1i32.to_le_bytes().to_vec());
}

#[test]
fn set_accumulates_flags_without_touching_entries() {
    let plugin = AnswerPlugin { answer: 0 };
    let mut good = int_entry(KEY_ANSWER, INT_TYPE);
    good.value = 17i32.to_le_bytes().to_vec();
    let bad_key = int_entry(KEY_RATE, INT_TYPE);
    let mut bad_subject = int_entry(KEY_ANSWER, INT_TYPE);
    bad_subject.context = 77;
    let entries = vec![good, bad_key, bad_subject];
    let ret = set_options(&plugin, &entries);
    assert_eq!(ret, OPTIONS_ERR_BAD_KEY | OPTIONS_ERR_BAD_SUBJECT);
}

/// A plugin whose getter reports an uncategorized failure.
struct FailingPlugin;

impl Options for FailingPlugin {
    fn get(
        &self,
        _key: Urid,
        _subject: Subject,
        _writer: &mut OptionWriter,
    ) -> Result<(), OptionsErr> {
        Err(OptionsErr::unknown())
    }

    fn set(&self, _key: Urid, _subject: Subject, _value: &UnidentifiedAtom) -> Result<
        (),
        OptionsErr,
    > {
        Err(OptionsErr::unknown())
    }
}

#[test]
fn empty_batch_is_full_success() {
    let plugin = AnswerPlugin { answer: 0 };
    let mut entries: Vec<OptionEntry> = vec![];
    assert_eq!(get_options(&plugin, &mut entries), 0);
    assert_eq!(set_options(&plugin, &entries), 0);
}

#[test]
fn all_invalid_batch_returns_exactly_bad_subject() {
    let plugin = AnswerPlugin { answer: 0 };
    let mut bad_a = int_entry(KEY_ANSWER, INT_TYPE);
    bad_a.context = 9;
    let mut bad_b = int_entry(KEY_ANSWER, INT_TYPE);
    bad_b.context = CONTEXT_RESOURCE;
    bad_b.subject = 0;
    let mut entries = vec![bad_a, bad_b];
    assert_eq!(get_options(&plugin, &mut entries), OPTIONS_ERR_BAD_SUBJECT);
    assert_eq!(set_options(&plugin, &entries), OPTIONS_ERR_BAD_SUBJECT);
}

#[test]
fn plugin_failure_surfaces_as_unknown() {
    let plugin = FailingPlugin;
    let mut entries = vec![int_entry(KEY_ANSWER, INT_TYPE)];
    let ret = get_options(&plugin, &mut entries);
    assert_eq!(ret, OPTIONS_ERR_UNKNOWN);
    assert_eq!(entries[0].value, vec![0, 0, 0, 0]);
}

/// A plugin with one vector option under `KEY_RATE`.
struct VectorPlugin {
    samples: Vec<u32>,
}

impl Options for VectorPlugin {
    fn get(
        &self,
        key: Urid,
        _subject: Subject,
        writer: &mut OptionWriter,
    ) -> Result<(), OptionsErr> {
        if key.get() != KEY_RATE {
            return Err(OptionsErr::bad_key());
        }
        writer.init_vector(Urid::new(VECTOR_TYPE).unwrap(), Urid::new(FLOAT_TYPE).unwrap())?;
        writer.append_elems(&self.samples);
        writer.finish();
        Ok(())
    }

    fn set(&self, _key: Urid, _subject: Subject, _value: &UnidentifiedAtom) -> Result<
        (),
        OptionsErr,
    > {
        Ok(())
    }
}

const VECTOR_TYPE: u32 = 11;

#[test]
fn get_fills_a_vector_entry() {
    let plugin = VectorPlugin { samples: vec![1, 2, 3] };
    let mut entries = vec![int_entry(KEY_RATE, VECTOR_TYPE)];
    let ret = get_options(&plugin, &mut entries);
    assert_eq!(ret, 0);
    // Payload: element size, element type, then the three elements.
    let mut expected = Vec::new();
    expected.extend_from_slice(&4u32.to_le_bytes());
    expected.extend_from_slice(&FLOAT_TYPE.to_le_bytes());
    for e in [1u32, 2, 3] {
        expected.extend_from_slice(&e.to_le_bytes());
    }
    assert_eq!(entries[0].value, expected);
}

#[test]
fn test_option_feature() {
    let int_type = Urid::new(INT_TYPE).unwrap();
    let float_type = Urid::new(FLOAT_TYPE).unwrap();
    let key_1 = Urid::new(1).unwrap();
    let key_2 = Urid::new(2).unwrap();
    let key_3 = Urid::new(3).unwrap();

    let option_value_1 = 42u32;
    let option_value_2 = 23.42f32;

    let entries = vec![
        OptionEntry {
            context: 0,
            subject: 0,
            key: key_1.get(),
            type_: int_type.get(),
            value: (option_value_1 as i32).to_le_bytes().to_vec(),
        },
        OptionEntry {
            context: 0,
            subject: 0,
            key: key_2.get(),
            type_: float_type.get(),
            value: option_value_2.to_bits().to_le_bytes().to_vec(),
        },
    ];

    let options = LV2Options::new(&entries);
    let option_value_1 = options.retrieve_option(key_1).and_then(|atom| atom.read_int(int_type));
    let option_value_2 = options
        .retrieve_option(key_2)
        .and_then(|atom| atom.read_float_bits(float_type))
        .map(f32::from_bits);
    let option_value_3 = options.retrieve_option(key_3).and_then(|atom| atom.read_int(int_type));

    assert_eq!(option_value_1, Some(42));
    assert_eq!(option_value_2, Some(23.42));
    assert_eq!(option_value_3, None);
}
