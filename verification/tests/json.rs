use ork::json::{entries_set, Json};

fn num(n: u64) -> Json {
    Json::from_u64(n)
}

#[test]
fn setting_a_key_is_read_back_and_keeps_other_keys() {
    let mut e = vec![("a".to_string(), num(1)), ("b".to_string(), num(2))];
    entries_set(&mut e, "a".to_string(), num(9));
    let obj = Json::Object(e);
    assert_eq!(obj.get("a"), Some(&num(9)));
    assert_eq!(obj.get("b"), Some(&num(2)));
    match obj {
        Json::Object(mut e) => {
            entries_set(&mut e, "c".to_string(), num(3));
            assert_eq!(
                e,
                vec![("a".to_string(), num(9)), ("b".to_string(), num(2)), ("c".to_string(), num(3))]
            );
        }
        _ => unreachable!(),
    }
}
