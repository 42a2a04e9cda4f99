use minitrace::payload::Payload;

fn pairs(p: &Payload) -> Vec<(String, String)> {
    let mut v = Vec::new();
    for i in 0..p.len() {
        let (k, val) = p.entry(i);
        v.push((k.clone(), val.clone()));
    }
    v
}

#[test]
fn payload_insert_keeps_order() {
    let mut p = Payload::new();
    assert_eq!(p.len(), 0);
    p.insert("b".to_string(), "1".to_string());
    p.insert("a".to_string(), "2".to_string());
    assert_eq!(
        pairs(&p),
        vec![("b".to_string(), "1".to_string()), ("a".to_string(), "2".to_string())]
    );
}

#[test]
fn payload_insert_overwrites_in_place() {
    let mut p = Payload::new();
    p.insert("k".to_string(), "old".to_string());
    p.insert("z".to_string(), "1".to_string());
    p.insert("k".to_string(), "new".to_string());
    assert_eq!(p.len(), 2);
    assert_eq!(
        pairs(&p),
        vec![("k".to_string(), "new".to_string()), ("z".to_string(), "1".to_string())]
    );
    assert_eq!(p.get("k"), Some("new".to_string()));
}

#[test]
fn payload_get_missing() {
    let p = Payload::single("a".to_string(), "1".to_string());
    assert_eq!(p.get("a"), Some("1".to_string()));
    assert_eq!(p.get("b"), None);
}

#[test]
fn payload_extend_is_union_preferring_the_other() {
    let mut p = Payload::new();
    p.insert("a".to_string(), "1".to_string());
    p.insert("b".to_string(), "2".to_string());
    let mut q = Payload::new();
    q.insert("b".to_string(), "20".to_string());
    q.insert("c".to_string(), "30".to_string());
    p.extend(q);
    assert_eq!(
        pairs(&p),
        vec![
            ("a".to_string(), "1".to_string()),
            ("b".to_string(), "20".to_string()),
            ("c".to_string(), "30".to_string())
        ]
    );
}

#[test]
fn payload_extend_with_empty() {
    let mut p = Payload::single("a".to_string(), "1".to_string());
    p.extend(Payload::new());
    assert_eq!(pairs(&p), vec![("a".to_string(), "1".to_string())]);
}
