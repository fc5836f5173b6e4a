use dioxus_storage::{
    encode_for_transport, get_data, type_fingerprint, PersistantStorageContext,
    Phase, PersistentStorageContext, PipelineError, StoreError,
};

fn reload(ctx: &mut PersistentStorageContext) -> PersistentStorageContext {
    let text = ctx.seal();
    PersistentStorageContext::load(&text).unwrap()
}

#[test]
fn new_store_is_empty() {
    let ctx = PersistentStorageContext::new();
    assert_eq!(ctx.len(), 0);
    assert_eq!(ctx.cursor(), 0);
    assert_eq!(ctx.phase(), Phase::Producing);
}

#[test]
fn reads_follow_appends() {
    let mut ctx = PersistentStorageContext::new();
    ctx.set(1, vec![10, 11, 12, 13, 14, 15]).unwrap();
    ctx.set(2, vec![]).unwrap();
    ctx.set(1, vec![30]).unwrap();
    let mut back = reload(&mut ctx);
    assert_eq!(back.get(1), Ok(Some(vec![10, 11, 12, 13, 14, 15])));
    assert_eq!(back.get(2), Ok(Some(vec![])));
    assert_eq!(back.get(1), Ok(Some(vec![30])));
}

#[test]
fn fourth_read_finds_nothing() {
    let mut ctx = PersistentStorageContext::new();
    ctx.set(5, vec![1]).unwrap();
    ctx.set(5, vec![2]).unwrap();
    ctx.set(5, vec![3]).unwrap();
    let mut back = reload(&mut ctx);
    for _ in 0..3 {
        assert!(matches!(back.get(5), Ok(Some(_))));
    }
    assert_eq!(back.get(5), Ok(None));
    assert_eq!(back.get(5), Ok(None));
    assert_eq!(back.cursor(), 3);
}

#[test]
fn integer_read_as_other_type_is_refused() {
    let int_kind = type_fingerprint("u32");
    let name_kind = type_fingerprint("NameState");
    let mut ctx = PersistentStorageContext::new();
    ctx.set(int_kind, postcard::to_allocvec(&0u32).unwrap()).unwrap();
    let mut back = reload(&mut ctx);
    assert_eq!(back.get(name_kind), Err(StoreError::TypeMismatch));
    assert_eq!(back.get(name_kind), Ok(None));
}

#[test]
fn count_then_name_scenario() {
    let count_kind = type_fingerprint("CountState");
    let name_kind = type_fingerprint("NameState");
    let mut producer = PersistentStorageContext::new();
    producer.set(count_kind, postcard::to_allocvec(&0u32).unwrap()).unwrap();
    producer.set(name_kind, postcard::to_allocvec(&String::from("a")).unwrap()).unwrap();
    let text = producer.seal();

    let mut consumer = PersistentStorageContext::load(&text).unwrap();
    let count = consumer.get(count_kind).unwrap().unwrap();
    assert_eq!(postcard::from_bytes::<u32>(&count).unwrap(), 0);
    let name = consumer.get(name_kind).unwrap().unwrap();
    assert_eq!(postcard::from_bytes::<String>(&name).unwrap(), "a");
    assert_eq!(consumer.get(count_kind), Ok(None));
}

#[test]
fn empty_store_seals_and_loads() {
    let mut ctx = PersistentStorageContext::new();
    let mut back = reload(&mut ctx);
    assert_eq!(back.len(), 0);
    assert_eq!(back.phase(), Phase::Consuming);
    assert_eq!(back.get(0), Ok(None));
}

#[test]
fn load_reports_framing_error() {
    assert!(matches!(
        PersistentStorageContext::load("q"),
        Err(PipelineError::Framing)
    ));
}

#[test]
fn load_reports_compression_error() {
    assert!(matches!(
        PersistentStorageContext::load("deadbeef"),
        Err(PipelineError::Compression)
    ));
}

#[test]
fn load_reports_structural_error() {
    let text = encode_for_transport(&[5]);
    assert!(matches!(
        PersistentStorageContext::load(&text),
        Err(PipelineError::StructuralDecode)
    ));
}

#[test]
fn loaded_store_starts_at_first_entry() {
    let mut ctx = PersistentStorageContext::new();
    ctx.set(3, vec![9]).unwrap();
    assert_eq!(ctx.get(3), Ok(None));
    assert_eq!(ctx.cursor(), 0);
    let mut back = reload(&mut ctx);
    assert_eq!(back.cursor(), 0);
    assert_eq!(back.get(3), Ok(Some(vec![9])));
}

#[test]
fn get_data_wraps_sealed_text_in_meta_element() {
    let mut ctx: PersistantStorageContext = PersistentStorageContext::new();
    ctx.set(7, vec![1, 2, 3]).unwrap();
    let html = get_data(&mut ctx);
    assert_eq!(ctx.phase(), Phase::Sealed);
    let sealed = ctx.seal();
    assert_eq!(
        html,
        format!("<meta id=\"dioxus-storage\" data-serialized=\"{sealed}\" hidden=\"true\"/>")
    );
    let mut back = PersistentStorageContext::load(&sealed).unwrap();
    assert_eq!(back.get(7), Ok(Some(vec![1, 2, 3])));
}

#[test]
fn fingerprint_is_fnv1a() {
    assert_eq!(type_fingerprint(""), 0xcbf29ce484222325);
    assert_eq!(type_fingerprint("a"), 0xaf63dc4c8601ec8c);
    assert_ne!(type_fingerprint("CountState"), type_fingerprint("NameState"));
}

#[test]
fn sealed_store_refuses_appends() {
    let mut ctx = PersistentStorageContext::new();
    ctx.set(1, vec![1]).unwrap();
    let text = ctx.seal();
    assert_eq!(ctx.set(2, vec![2]), Err(StoreError::Sealed));
    assert_eq!(ctx.len(), 1);
    assert_eq!(ctx.seal(), text);
    let mut back = PersistentStorageContext::load(&text).unwrap();
    assert_eq!(back.set(2, vec![2]), Err(StoreError::Sealed));
    assert_eq!(back.get(1), Ok(Some(vec![1])));
    assert_eq!(back.get(1), Ok(None));
}

#[test]
fn empty_store_still_emits_element() {
    let mut ctx = PersistentStorageContext::new();
    let html = get_data(&mut ctx);
    let prefix = "<meta id=\"dioxus-storage\" data-serialized=\"";
    assert!(html.starts_with(prefix));
    let rest = &html[prefix.len()..];
    let end = rest.find('"').unwrap();
    let attr = &rest[..end];
    assert!(!attr.is_empty());
    assert_eq!(attr.len() % 2, 0);
    assert!(attr.chars().all(|c| matches!(c, '0'..='9' | 'a'..='f')));
    let mut back = PersistentStorageContext::load(attr).unwrap();
    assert_eq!(back.len(), 0);
    assert_eq!(back.get(0), Ok(None));
}
