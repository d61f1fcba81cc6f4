use chargrid::ascii_vec::AsciiVec;
use chargrid::modern_vec::ModernVec;
use chargrid::traits::{Lockable, ReplacebleIndex};
use chargrid::Error;

// ---------------------- ASCII VEC -------------------------- //

#[test]
fn lib_test_fill() {
    let mut a_vec = AsciiVec::new(5).unwrap();
    a_vec.fill('b');

    assert_eq!(a_vec.get(0), Ok('b'));
    assert_eq!(a_vec.get(1), Ok('b'));
    assert_eq!(a_vec.get(2), Ok('b'));
    assert_eq!(a_vec.get(3), Ok('b'));

    a_vec.fill(' ');
    assert_eq!(a_vec.get(0), Ok(' '));
    assert_eq!(a_vec.get(1), Ok(' '));
    assert_eq!(a_vec.get(2), Ok(' '));
    assert_eq!(a_vec.get(3), Ok(' '));
}

#[test]
fn lib_test_fill2() {
    let mut a_vec = AsciiVec::new(5).unwrap();
    a_vec.fill('b');

    // index four is the terminator cell, so the read is refused
    assert_eq!(a_vec.get(4), Err(Error::TerminatorProtected));
}

#[test]
fn test_ascii_replace() {
    let mut a_vec = AsciiVec::new(5).unwrap();
    a_vec.fill('b');

    a_vec.replace(2, 'c').unwrap();

    assert_eq!(a_vec.get(0), Ok('b'));
    assert_eq!(a_vec.get(1), Ok('b'));
    assert_eq!(a_vec.get(2), Ok('c'));
    assert_eq!(a_vec.get(3), Ok('b'));
}

#[test]
fn test_ascii_replace2() {
    let mut a_vec = AsciiVec::new(5).unwrap();
    a_vec.fill('b');

    // index five is already past the row
    assert_eq!(a_vec.replace(5, 'c'), Err(Error::IndexOutOfBounds));
}

#[test]
fn test_ascii_replace3() {
    let mut a_vec = AsciiVec::new(5).unwrap();
    a_vec.fill('b');

    // no such index exists
    assert_eq!(a_vec.replace(65, 'c'), Err(Error::IndexOutOfBounds));
}

#[test]
fn test_ascii_replace_terminator() {
    let mut a_vec = AsciiVec::new(5).unwrap();
    a_vec.fill('b');

    assert_eq!(a_vec.replace(4, 'c'), Err(Error::TerminatorProtected));
    assert_eq!(a_vec.get_str(), String::from("bbbb\n"));
}

#[test]
fn test_ascii_new_zero() {
    assert!(matches!(AsciiVec::new(0), Err(Error::InvalidDimensions)));
}

#[test]
fn test_get_str() {
    let mut a_vec = AsciiVec::new(12).unwrap();
    a_vec.fill('b');

    a_vec.replace(2, 'c').unwrap();
    a_vec.replace(0, 'o').unwrap();

    let st = a_vec.get_str();

    assert_eq!("obcbbbbbbbb\n", st);
}

// ---------------------- MODERN VEC ------------------------- //

#[test]
fn test_index() {
    let mut m_vec = ModernVec::new();
    m_vec.lock(3).unwrap();
    m_vec.safe_push(1).unwrap();
    m_vec.safe_push(3).unwrap();
    m_vec.safe_push(5).unwrap();

    m_vec.replace(1, 2).unwrap();
    assert_eq!(*m_vec.get(1).unwrap(), 2);

    m_vec.replace(1, 3).unwrap();
    assert_eq!(*m_vec.get(1).unwrap(), 3);

    assert_eq!(*m_vec.get(2).unwrap(), 5);
    m_vec.replace(2, 0).unwrap();
    assert_eq!(*m_vec.get(2).unwrap(), 0);
}

#[test]
fn test_index2() {
    let mut m_vec: ModernVec<char> = ModernVec::new();
    m_vec.lock(3).unwrap();

    m_vec.safe_push('a').unwrap();
    m_vec.safe_push('2').unwrap();
    m_vec.safe_push('5').unwrap();

    m_vec.replace(0, 'b').unwrap();
    assert_eq!(*m_vec.get(0).unwrap(), 'b');

    m_vec.replace(0, '2').unwrap();
    assert_eq!(*m_vec.get(0).unwrap(), '2');
}

#[test]
fn test_index3() {
    let mut m_vec: ModernVec<char> = ModernVec::new();
    m_vec.lock(3).unwrap();

    m_vec.safe_push('a').unwrap();
    m_vec.safe_push('2').unwrap();
    m_vec.safe_push('5').unwrap();

    assert_eq!(m_vec.replace(4, 'b'), Err(Error::IndexOutOfBounds));
}

#[test]
fn test_lock1() {
    let mut m_vec = ModernVec::new();

    m_vec.lock(5).unwrap();

    m_vec.safe_push(2).unwrap();
    m_vec.safe_push(2).unwrap();
    m_vec.safe_push(2).unwrap();
    m_vec.safe_push(2).unwrap();
    m_vec.safe_push(2).unwrap();
}

#[test]
fn test_lock2() {
    let mut m_vec = ModernVec::new();

    m_vec.lock(5).unwrap();

    m_vec.safe_push(2).unwrap();
    m_vec.safe_push(2).unwrap();
    m_vec.safe_push(2).unwrap();
    m_vec.safe_push(2).unwrap();
    m_vec.safe_push(2).unwrap();
    assert_eq!(m_vec.safe_push(2), Err(Error::CapacityExceeded));
}

#[test]
fn test_lock_twice() {
    let mut m_vec: ModernVec<u32> = ModernVec::new();
    assert!(!m_vec.is_locked());
    m_vec.lock(5).unwrap();
    assert!(m_vec.is_locked());
    assert_eq!(m_vec.lock(7), Err(Error::AlreadyLocked));
    assert_eq!(m_vec.get_lock_len(), Ok(5));
}

#[test]
fn test_push_unlocked() {
    let mut m_vec: ModernVec<u32> = ModernVec::new();
    assert_eq!(m_vec.safe_push(1), Err(Error::NotLocked));
    assert_eq!(m_vec.get_lock_len(), Err(Error::NotLocked));
    assert_eq!(m_vec.get(0), Err(Error::IndexOutOfBounds));
}
