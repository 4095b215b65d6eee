use balancebeam::linked_list::LinkedList;

#[test]
fn new_list_is_empty() {
    let list: LinkedList<u32> = LinkedList::new();
    assert!(list.is_empty());
    assert_eq!(list.get_size(), 0);
}

#[test]
fn push_and_pop_at_the_front() {
    let mut list: LinkedList<u32> = LinkedList::new();
    for i in 1..12 {
        list.push_front(i);
    }
    assert_eq!(list.get_size(), 11);
    assert!(!list.is_empty());
    assert_eq!(list.pop_front(), Some(11));
    assert_eq!(list.get_size(), 10);
    for i in (1..11).rev() {
        assert_eq!(list.pop_front(), Some(i));
    }
    assert_eq!(list.pop_front(), None);
    assert_eq!(list.get_size(), 0);
}

#[test]
fn cursor_walks_from_front_to_back() {
    let mut list: LinkedList<String> = LinkedList::new();
    list.push_front("world".to_string());
    list.push_front("hello".to_string());
    let mut cursor = list.iter();
    assert_eq!(cursor.next(), Some("hello".to_string()));
    assert_eq!(cursor.next(), Some("world".to_string()));
    assert_eq!(cursor.next(), None);
    assert_eq!(cursor.next(), None);
    assert_eq!(list.get_size(), 2);
}

#[test]
fn clone_is_a_list_of_its_own() {
    let mut list: LinkedList<String> = LinkedList::new();
    list.push_front("hello".to_string());
    let mut copy = list.clone();
    let mut taken = copy.pop_front().unwrap();
    taken.push_str("string");
    assert_eq!(copy.get_size(), 0);
    assert_eq!(list.get_size(), 1);
    assert_eq!(list.pop_front(), Some("hello".to_string()));
}

#[test]
fn elements_are_rendered_behind_spaces() {
    let mut list: LinkedList<u32> = LinkedList::new();
    assert_eq!(list.render(), "");
    for i in 1..12 {
        list.push_front(i);
    }
    assert_eq!(list.render(), " 11 10 9 8 7 6 5 4 3 2 1");
    list.pop_front();
    assert_eq!(list.render(), " 10 9 8 7 6 5 4 3 2 1");
    let mut words: LinkedList<String> = LinkedList::new();
    words.push_front("hello".to_string());
    assert_eq!(words.render(), " hello");
}

#[test]
fn lists_are_equal_element_by_element() {
    let mut a: LinkedList<String> = LinkedList::new();
    a.push_front("hello".to_string());
    let mut b = a.clone();
    assert!(a == b);
    let mut taken = b.pop_front().unwrap();
    assert!(a != b);
    taken.push_str("string");
    b.push_front(taken);
    assert!(a != b);
    b.pop_front();
    b.push_front("hello".to_string());
    assert!(a == b);
    b.push_front("again".to_string());
    assert!(a != b);
    let empty: LinkedList<String> = LinkedList::new();
    assert!(empty == LinkedList::new());
    assert!(empty != a);
}

#[test]
fn clone_keeps_the_order() {
    let mut list: LinkedList<u32> = LinkedList::new();
    for i in 0..5 {
        list.push_front(i);
    }
    let mut copy = list.clone();
    assert_eq!(copy.get_size(), 5);
    for i in (0..5).rev() {
        assert_eq!(copy.pop_front(), Some(i));
    }
    assert_eq!(list.get_size(), 5);
}
