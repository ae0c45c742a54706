use pipl::channel::Channel;
use pipl::Name;

fn n(name: char) -> Name {
    Name::new((name.to_digit(36).unwrap() as u8).into(), 0)
}

#[test]
fn read() {
    let x = n('x');
    assert_eq!(Channel::read(x.clone()), Channel::Read(x));
}

#[test]
fn send() {
    let x = n('x');
    assert_eq!(Channel::send(x.clone()), Channel::Send(x));
}

#[test]
fn invert() {
    let (x, y) = (n('x'), n('y'));
    assert_eq!(Channel::read(x.clone()).invert(), Channel::send(x));
    assert_eq!(Channel::send(y.clone()).invert(), Channel::read(y));
}

#[test]
fn clone_with() {
    let (x, y) = (n('x'), n('y'));
    let (a, b) = (n('a'), n('b'));
    let read = Channel::read(x);
    let send = Channel::send(y);
    assert_eq!(read.clone_with(a.clone()), Channel::read(a));
    assert_eq!(send.clone_with(b.clone()), Channel::send(b));
}
