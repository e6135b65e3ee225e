use alpm::deps::{Dep, Depend};
use alpm::list::{AlpmList, WithAlpmList};

fn foo<'a, L: WithAlpmList<Dep<'a>>>(list: L) {
    list.with_alpm_list(|list| println!("{:?}", list));
}

#[test]
fn test_list2() {
    let dep = Depend::new("a");
    let a = vec![dep];

    foo(a.iter());
    foo(a.into_iter());

    let dep = Depend::new("a");
    let dep = dep.as_dep();
    let a = vec![dep];

    foo(a.iter());
    foo(a.into_iter());
}

fn bar(list: impl WithAlpmList<String>) {
    list.with_alpm_list(|list| assert_eq!(list.iter().nth(1).unwrap(), "bb"));
}

#[test]
fn test_with_alpm_list_string() {
    bar(vec!["aa", "bb", "xx"].iter());
    bar(vec!["aa", "bb", "xx"].into_iter());
    bar(vec!["aa".to_string(), "bb".to_string(), "xx".to_string()].iter());
    bar(vec!["aa".to_string(), "bb".to_string(), "xx".to_string()].into_iter());
}

fn names<L: WithAlpmList<Dep<'static>>>(list: L) -> Vec<String> {
    list.with_alpm_list(|list| list.iter().map(|d| d.name().to_string()).collect())
}

#[test]
fn with_alpm_list_keeps_order() {
    let deps = vec![Depend::new("aa"), Depend::new("bb>1"), Depend::new("cc")];
    assert_eq!(names(deps.iter()), ["aa", "bb", "cc"]);
    let mut it = deps.iter();
    it.next();
    assert_eq!(names(it), ["bb", "cc"]);
    assert_eq!(names(deps.into_iter()), ["aa", "bb", "cc"]);
}

#[test]
fn alpm_list_accessors() {
    let l = AlpmList::new(vec![1, 2, 3]);
    assert!(!l.is_empty());
    assert_eq!(l.len(), 3);
    assert_eq!(l.first(), Some(&1));
    assert_eq!(l.last(), Some(&3));
    assert_eq!(l.items(), [1, 2, 3]);
    assert_eq!(l.iter().collect::<Vec<_>>(), [1, 2, 3]);
    let e: AlpmList<u8> = AlpmList::new(Vec::new());
    assert!(e.is_empty());
    assert_eq!(e.first(), None);
    assert_eq!(e.last(), None);
    let l = AlpmList::new(vec![7]);
    assert_eq!(l.with_alpm_list(|l| l.len()), 1);
}

#[test]
fn alpm_list_emptiness_agrees() {
    let e: AlpmList<u8> = AlpmList::new(Vec::new());
    assert!(e.is_empty() && e.len() == 0 && e.first().is_none());
    assert!(e.iter().next().is_none());
    let l = AlpmList::new(vec![4u8]);
    assert!(!l.is_empty() && l.len() == 1 && l.first().is_some());
    assert_eq!(l.iter().next(), Some(4));
}
