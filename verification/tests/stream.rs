use tkr_lang::stream::Stream;

#[test]
fn new_stream_starts_at_zero() {
    let st = Stream::new(vec![1, 2, 3]);
    assert_eq!(st.pos(), 0);
    assert_eq!(st.peak(), Some(1));
    assert!(!st.eof());
}

#[test]
fn empty_stream_is_at_its_end() {
    let st: Stream<u8> = Stream::new(Vec::new());
    assert!(st.eof());
    assert_eq!(st.peak(), None);
    assert_eq!(st.peak_index(0), None);
}

#[test]
fn peak_index_looks_ahead_without_consuming() {
    let st = Stream::new(vec!['a', 'b', 'c']);
    assert_eq!(st.peak_index(0), Some('a'));
    assert_eq!(st.peak_index(1), Some('b'));
    assert_eq!(st.peak_index(2), Some('c'));
    assert_eq!(st.peak_index(3), None);
    assert_eq!(st.peak_index(usize::MAX), None);
    assert_eq!(st.pos(), 0);
}

#[test]
fn set_pos_accepts_the_end_and_refuses_beyond() {
    let mut st = Stream::new(vec!['a', 'b']);
    assert_eq!(st.set_pos(2), Some(()));
    assert_eq!(st.pos(), 2);
    assert!(st.eof());
    assert_eq!(st.set_pos(3), None);
    assert_eq!(st.pos(), 2);
    assert_eq!(st.set_pos(0), Some(()));
    assert_eq!(st.pos(), 0);
}

#[test]
fn add_pos_advances_or_stays() {
    let mut st = Stream::new(vec![10, 20, 30]);
    assert_eq!(st.add_pos(2), Some(()));
    assert_eq!(st.pos(), 2);
    assert_eq!(st.peak(), Some(30));
    assert_eq!(st.add_pos(2), None);
    assert_eq!(st.pos(), 2);
    assert_eq!(st.add_pos(usize::MAX), None);
    assert_eq!(st.pos(), 2);
    assert_eq!(st.add_pos(1), Some(()));
    assert_eq!(st.pos(), 3);
}

#[test]
fn next_consumes_one_symbol_until_the_end() {
    let mut st = Stream::new(vec!['x']);
    assert_eq!(st.next(), Some(()));
    assert_eq!(st.pos(), 1);
    assert_eq!(st.next(), None);
    assert_eq!(st.pos(), 1);
}

#[test]
fn clone_keeps_input_and_position() {
    let mut st = Stream::new(vec!['a', 'b', 'c']);
    st.next();
    let mut copy = st.clone();
    assert_eq!(copy.pos(), 1);
    assert_eq!(copy.peak(), Some('b'));
    copy.next();
    assert_eq!(st.pos(), 1);
    assert_eq!(copy.peak(), Some('c'));
}
