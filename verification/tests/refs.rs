use pipl::refs::Refs;
use pipl::Name;

fn n(name: usize) -> Name {
    Name::new(name, 0)
}

#[test]
fn get_default() {
    let subject = Refs::new();
    let k = n(1);
    assert_eq!(subject.get(&k), k.clone());
}

#[test]
fn get_value() {
    let mut subject = Refs::new();
    let (k, v) = (n(1), n(2));
    subject.set(k.clone(), v.clone());
    assert_eq!(subject.get(&k), v.clone());
}

#[test]
fn get_names() {
    let mut subject = Refs::new();
    let (k1, v1) = (n(1), n(2));
    let (k2,) = (n(2),);
    let (k3, v3) = (n(3), n(3));
    subject.set(k1.clone(), v1.clone());
    subject.set(k3.clone(), v3.clone());
    let actual = subject.get_names(&vec![k1, k2.clone(), k3]);
    let expected = vec![v1, k2, v3];
    assert_eq!(actual, expected);
}

#[test]
fn set() {
    let mut subject = Refs::new();
    let (k, v) = (n(1), n(2));
    subject.set(k.clone(), v.clone());
    assert_eq!(subject.keys(), vec![k.clone()]);
    assert_eq!(subject.get(&k), v);
}

#[test]
fn set_names() {
    let mut subject = Refs::new();
    let (k1, v1) = (n(11), n(1));
    let (k2, v2) = (n(12), n(2));
    let (k3, v3) = (n(13), n(3));
    let keys = vec![k1.clone(), k2.clone(), k3.clone()];
    let values = vec![v1.clone(), v2.clone(), v3.clone()];
    subject.set_names(keys, values);
    assert_eq!(subject.get(&k1), v1);
    assert_eq!(subject.get(&k2), v2);
    assert_eq!(subject.get(&k3), v3);
}

#[test]
fn set_names_short_keys() {
    let mut subject = Refs::new();
    let (k1, v1) = (n(11), n(1));
    let (k2, v2) = (n(12), n(2));
    let keys = vec![k1.clone()];
    let values = vec![v1.clone(), v2.clone()];
    subject.set_names(keys, values);
    assert_eq!(subject.get(&k1), v1.clone());
    assert_eq!(subject.get(&k2), k2.clone());
}

#[test]
fn set_names_short_values() {
    let mut subject = Refs::new();
    let (k1, v1) = (n(11), n(1));
    let (k2,) = (n(12),);
    let keys = vec![k1.clone(), k2.clone()];
    let values = vec![v1.clone()];
    subject.set_names(keys, values);
    assert_eq!(subject.get(&k1), v1.clone());
    assert_eq!(subject.get(&k2), k2.clone());
}
