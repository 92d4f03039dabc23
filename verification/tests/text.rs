use ludusavi::dict::Dict;
use ludusavi::placeholder;
use ludusavi::ranked::RankSet;
use ludusavi::text::{
    compare, decimal_i64, decimal_u64, join_lines, str_eq, strip_prefix, strip_suffix,
    Order,
};

fn s(text: &str) -> String {
    text.to_string()
}

#[test]
fn strings_compare_byte_by_byte() {
    assert_eq!(Order::Same, compare("", ""));
    assert_eq!(Order::Before, compare("", "a"));
    assert_eq!(Order::After, compare("b", "a"));
    assert_eq!(Order::Before, compare("a", "ab"));
    assert_eq!(Order::Before, compare("Z", "a"));
    assert_eq!(Order::Before, compare("./x", ".\\x"));
    assert_eq!(Order::Before, compare("z", "é"));
    assert_eq!(Order::Same, compare("é", "é"));
    assert!(str_eq("abc", "abc"));
    assert!(!str_eq("abc", "abd"));
    assert!(!str_eq("abc", "ab"));
    assert!(str_eq("", ""));
}

#[test]
fn prefixes_and_suffixes() {
    assert_eq!(Some("x"), strip_prefix("./x", "./"));
    assert_eq!(Some(""), strip_prefix("./", "./"));
    assert_eq!(None, strip_prefix(".", "./"));
    assert_eq!(None, strip_prefix("a./", "./"));
    assert_eq!(Some("é"), strip_prefix("ñé", "ñ"));
    assert_eq!(Some("abc"), strip_prefix("abc", ""));
    assert_eq!(Some("m"), strip_suffix("m.yaml", ".yaml"));
    assert_eq!(None, strip_suffix("m.yam", ".yaml"));
    assert_eq!(Some("ñ"), strip_suffix("ñé", "é"));
    assert_eq!("ab", ludusavi::text::glue("a", "b"));
}

#[test]
fn lines_are_joined_by_newlines() {
    assert_eq!(None, join_lines(&vec![]));
    assert_eq!(Some(s("a")), join_lines(&vec![s("a")]));
    assert_eq!(Some(s("")), join_lines(&vec![s("")]));
    assert_eq!(Some(s("a\n\nb")), join_lines(&vec![s("a"), s(""), s("b")]));
}

#[test]
fn numbers_in_decimal() {
    assert_eq!("0", decimal_u64(0));
    assert_eq!("7", decimal_u64(7));
    assert_eq!("10", decimal_u64(10));
    assert_eq!("1234567890", decimal_u64(1234567890));
    assert_eq!("18446744073709551615", decimal_u64(u64::MAX));
    assert_eq!("0", decimal_i64(0));
    assert_eq!("-1", decimal_i64(-1));
    assert_eq!("-9223372036854775808", decimal_i64(i64::MIN));
    assert_eq!("9223372036854775807", decimal_i64(i64::MAX));
}

#[test]
fn dict_keeps_its_keys_in_order() {
    let mut dict = Dict::new();
    assert!(dict.is_empty());
    assert_eq!(None, dict.insert(s("b"), 2u32));
    assert_eq!(None, dict.insert(s("a"), 1));
    assert_eq!(None, dict.insert(s("c"), 3));
    assert_eq!(Some(2), dict.insert(s("b"), 20));
    assert_eq!(3, dict.len());
    assert_eq!("a", dict.key(0));
    assert_eq!("b", dict.key(1));
    assert_eq!("c", dict.key(2));
    assert_eq!(&20, dict.value(1));
    assert_eq!(Some(&1), dict.get("a"));
    assert_eq!(None, dict.get("d"));
    assert!(dict.contains_key("c"));
    assert_eq!(Some(1), dict.remove("a"));
    assert_eq!(None, dict.remove("a"));
    assert!(!dict.contains_key("a"));

    let mut other = Dict::new();
    other.insert(s("c"), 30);
    other.insert(s("d"), 40);
    dict.extend(other);
    assert_eq!(
        vec![(s("b"), 20), (s("c"), 30), (s("d"), 40)],
        dict.clone().into_entries()
    );

    let mut same = Dict::new();
    same.insert(s("d"), 40);
    same.insert(s("c"), 30);
    same.insert(s("b"), 20);
    assert_eq!(same, dict);
}

#[test]
fn rank_set_keeps_its_members_in_order() {
    let mut set = RankSet::new();
    assert!(set.is_empty());
    assert_eq!(None, set.first());
    assert!(set.insert(5u32));
    assert!(set.insert(1));
    assert!(!set.insert(5));
    assert!(set.insert(3));
    assert_eq!(3, set.len());
    assert_eq!(Some(1), set.first());
    assert_eq!(1, set.item(0));
    assert_eq!(3, set.item(1));
    assert_eq!(5, set.item(2));
    assert!(set.contains(&3));
    assert!(!set.contains(&4));
    let mut other = RankSet::new();
    other.insert(4);
    other.insert(1);
    set.extend(&other);
    assert_eq!(4, set.len());
    assert!(set.contains(&4));
    assert_eq!(set, set.clone());
}

#[test]
fn placeholders() {
    assert_eq!("<base>", placeholder::BASE);
    assert_eq!("<root>", placeholder::ROOT);
    assert_eq!("<game>", placeholder::GAME);
    assert_eq!("<home>", placeholder::HOME);
    assert_eq!("<storeUserId>", placeholder::STORE_USER_ID);
    assert_eq!("<osUserName>", placeholder::OS_USER_NAME);
    assert_eq!("<winAppData>", placeholder::WIN_APP_DATA);
    assert_eq!("<winLocalAppData>", placeholder::WIN_LOCAL_APP_DATA);
    assert_eq!("<winDocuments>", placeholder::WIN_DOCUMENTS);
    assert_eq!("<winPublic>", placeholder::WIN_PUBLIC);
    assert_eq!("<winProgramData>", placeholder::WIN_PROGRAM_DATA);
    assert_eq!("<winDir>", placeholder::WIN_DIR);
    assert_eq!("<xdgData>", placeholder::XDG_DATA);
    assert_eq!("<xdgConfig>", placeholder::XDG_CONFIG);
}
