use alpm::deps::Depend;
use alpm::list::{AlpmListMut, WithAlpmList};

#[test]
fn test_depends_list_free() {
    let mut list = AlpmListMut::new();
    list.push(Depend::new("aaaa"));
    list.push(Depend::new("aaaa"));
    list.push(Depend::new("aaaa"));
    list.push(Depend::new("aaaa"));
}

#[test]
fn test_depends_list_free_iter() {
    let mut list = AlpmListMut::new();
    list.push(Depend::new("aaaa"));
    list.push(Depend::new("aaaa"));
    list.push(Depend::new("aaaa"));
    list.push(Depend::new("aaaa"));
    let mut iter = list.iter();
    iter.next().unwrap();
}

#[test]
fn test_depends_list_pop() {
    let mut list = AlpmListMut::new();
    list.push(Depend::new("aaaa"));
    list.push(Depend::new("bbbb"));
    list.push(Depend::new("cccc"));
    list.push(Depend::new("dddd"));
    assert_eq!(list.pop().unwrap().name(), "dddd");
    assert_eq!(list.pop().unwrap().name(), "cccc");
    assert_eq!(list.pop().unwrap().name(), "bbbb");
    assert_eq!(list.pop().unwrap().name(), "aaaa");
    assert_eq!(list.pop(), None);
}

#[test]
fn test_depends_list_remove() {
    let mut list = AlpmListMut::new();
    list.push(Depend::new("aaaa"));
    list.push(Depend::new("bbbb"));
    list.push(Depend::new("cccc"));
    list.push(Depend::new("dddd"));
    assert_eq!(list.remove(0).unwrap().name(), "aaaa");
    assert_eq!(list.remove(2).unwrap().name(), "dddd");
    assert_eq!(list.remove(3), None);
}

#[test]
fn test_depends_list_from_iter() {
    let vec = vec![
        Depend::new("aaaa"),
        Depend::new("bbbb"),
        Depend::new("cccc"),
        Depend::new("dddd"),
    ];

    let list = AlpmListMut::from_vec(vec.clone());
    let mut iter = list.iter();

    assert_eq!(iter.next().unwrap().name(), "aaaa");
    assert_eq!(iter.next().unwrap().name(), "bbbb");
    assert_eq!(iter.next().unwrap().name(), "cccc");
    assert_eq!(iter.next().unwrap().name(), "dddd");
    assert_eq!(iter.next(), None);
}

#[test]
fn list_mut_retain_keeps_order() {
    let mut list = AlpmListMut::new();
    for name in ["apple", "banana", "avocado", "cherry", "apricot"] {
        list.push(name.to_string());
    }
    list.retain(|p| p.starts_with('a'));
    assert_eq!(list.items(), ["apple", "avocado", "apricot"]);
    list.retain(|_| false);
    assert!(list.is_empty());
}

#[test]
fn list_mut_accessors() {
    let mut list: AlpmListMut<String> = AlpmListMut::new();
    assert!(list.first().is_none());
    list.push("a".to_string());
    list.push_str("b");
    list.push_str("c");
    assert_eq!(list.len(), 3);
    assert_eq!(list.first().map(|s| s.as_str()), Some("a"));
    assert_eq!(list.last().map(|s| s.as_str()), Some("c"));
    let borrowed = list.list();
    assert_eq!(*borrowed.items()[1], "b");
    let n = list.with_alpm_list(|l| l.len());
    assert_eq!(n, 3);
}
