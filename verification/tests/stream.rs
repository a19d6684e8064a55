use resp_store::stream::errors::StreamError;
use resp_store::stream::parse::StreamIDParser;
use resp_store::stream::serialize::StreamSerializer;
use resp_store::stream::store::{Stream, StreamStore};
use resp_store::stream::StreamID;

fn id(id: usize, seq: usize) -> StreamID {
    StreamID::new(id, seq)
}

fn fields(pairs: &[(&str, &str)]) -> Vec<(String, String)> {
    pairs.iter().map(|(k, v)| (k.to_string(), v.to_string())).collect()
}

fn spec(id: &str, seq: Option<&str>) -> (String, Option<String>) {
    (id.to_string(), seq.map(|s| s.to_string()))
}

#[test]
fn ids_are_ordered_by_timestamp_then_sequence() {
    assert!(id(1, 5) < id(2, 0));
    assert!(id(2, 0) < id(2, 1));
    assert!(id(2, 1) == id(2, 1));
    assert!(id(3, 0) > id(2, 9));
}

#[test]
fn both_wildcards_behind_a_last_entry() {
    assert_eq!(StreamID::id_and_seq_wc(id(5, 3), 5), Ok(id(5, 4)));
    assert_eq!(StreamID::id_and_seq_wc(id(5, 3), 9), Ok(id(9, 0)));
    assert_eq!(StreamID::id_and_seq_wc(id(5, 3), 4), Err(StreamError::InvalidStreamID));
    assert_eq!(StreamID::id_and_seq_wc(id(5, usize::MAX), 5), Err(StreamError::InvalidStreamID));
    assert_eq!(StreamID::id_and_seq_wc(id(5, 3), 0), Err(StreamError::StreamIDZero));
}

#[test]
fn wildcard_timestamp_with_a_sequence_number() {
    assert_eq!(StreamID::no_last(None, Some(7), 100), Ok(id(100, 7)));
    assert_eq!(StreamID::id_wc(7, id(100, 2), 100), Ok(id(100, 3)));
    assert_eq!(StreamID::id_wc(7, id(100, 2), 101), Ok(id(101, 0)));
    assert_eq!(StreamID::id_wc(7, id(100, 2), 99), Err(StreamError::InvalidStreamID));
}

#[test]
fn wildcard_sequence_under_a_timestamp() {
    assert_eq!(StreamID::seq_wc(5, id(5, 3)), Ok(id(5, 4)));
    assert_eq!(StreamID::seq_wc(6, id(5, 3)), Ok(id(6, 0)));
    assert_eq!(StreamID::seq_wc(4, id(5, 3)), Err(StreamError::InvalidStreamID));
    assert_eq!(StreamID::seq_wc(5, id(5, usize::MAX)), Err(StreamError::InvalidStreamID));
}

#[test]
fn explicit_ids_must_grow() {
    assert_eq!(StreamID::no_wc(5, 4, id(5, 3)), Ok(id(5, 4)));
    assert_eq!(StreamID::no_wc(6, 0, id(5, 3)), Ok(id(6, 0)));
    assert_eq!(StreamID::no_wc(5, 3, id(5, 3)), Err(StreamError::InvalidStreamID));
    assert_eq!(StreamID::no_wc(5, 2, id(5, 3)), Err(StreamError::InvalidStreamID));
    assert_eq!(StreamID::no_wc(4, 9, id(5, 3)), Err(StreamError::InvalidStreamID));
    assert_eq!(StreamID::no_wc(0, 0, id(5, 3)), Err(StreamError::StreamIDZero));
}

#[test]
fn first_entry_of_a_stream() {
    assert_eq!(StreamID::no_last(Some(5), Some(3), 100), Ok(id(5, 3)));
    assert_eq!(StreamID::no_last(Some(5), None, 100), Ok(id(5, 0)));
    assert_eq!(StreamID::no_last(Some(0), None, 100), Ok(id(0, 1)));
    assert_eq!(StreamID::no_last(None, None, 100), Ok(id(100, 0)));
    assert_eq!(StreamID::no_last(None, None, 0), Ok(id(0, 1)));
    assert_eq!(StreamID::no_last(Some(0), Some(0), 100), Err(StreamError::StreamIDZero));
    assert_eq!(StreamID::no_last(None, Some(0), 0), Err(StreamError::StreamIDZero));
}

#[test]
fn resolved_picks_the_rule_by_the_parts() {
    assert_eq!(StreamID::resolved(None, None, Some(id(5, 3)), 5), Ok(id(5, 4)));
    assert_eq!(StreamID::resolved(Some(5), None, Some(id(5, 3)), 9), Ok(id(5, 4)));
    assert_eq!(StreamID::resolved(Some(7), Some(7), Some(id(5, 3)), 9), Ok(id(7, 7)));
    assert_eq!(StreamID::resolved(Some(7), Some(7), None, 9), Ok(id(7, 7)));
}

#[test]
fn parts_of_an_id_as_numbers() {
    assert_eq!(StreamIDParser::string_to_usize_opt("*".to_string()), Ok(None));
    assert_eq!(StreamIDParser::string_to_usize_opt("-".to_string()), Ok(Some(0)));
    assert_eq!(StreamIDParser::string_to_usize_opt("+".to_string()), Ok(Some(usize::MAX)));
    assert_eq!(StreamIDParser::string_to_usize_opt("42".to_string()), Ok(Some(42)));
    assert_eq!(
        StreamIDParser::string_to_usize_opt("4x".to_string()),
        Err(StreamError::InvalidStreamID)
    );
    assert_eq!(
        StreamIDParser::string_to_usize_opt("".to_string()),
        Err(StreamError::InvalidStreamID)
    );
    assert_eq!(
        StreamIDParser::convert_to_usize_opt("1".to_string(), Some("*".to_string())),
        Ok((Some(1), None))
    );
    assert_eq!(StreamIDParser::convert_to_usize_opt("*".to_string(), None), Ok((None, None)));
    assert_eq!(
        StreamIDParser::convert_to_usize_opt("0".to_string(), Some("0".to_string())),
        Err(StreamError::StreamIDZero)
    );
    assert_eq!(
        StreamIDParser::convert_to_usize_opt("0".to_string(), Some("x".to_string())),
        Err(StreamError::InvalidStreamID)
    );
}

#[test]
fn written_ids_are_cut_at_the_dash() {
    assert_eq!(StreamIDParser::split_initial("5-3".to_string()), Ok(spec("5", Some("3"))));
    assert_eq!(StreamIDParser::split_initial("5-*".to_string()), Ok(spec("5", Some("*"))));
    assert_eq!(StreamIDParser::split_initial("*".to_string()), Ok(spec("*", None)));
    assert_eq!(StreamIDParser::split_initial("+".to_string()), Ok(spec("+", None)));
    assert_eq!(StreamIDParser::split_initial("-".to_string()), Ok(spec("-", None)));
    assert_eq!(StreamIDParser::split_initial("1-2-3".to_string()), Ok(spec("1", Some("2"))));
    assert_eq!(StreamIDParser::split_initial("1x3-12x".to_string()), Ok(spec("1x3", Some("12x"))));
    assert_eq!(
        StreamIDParser::split_initial("abc".to_string()),
        Err(StreamError::InvalidStreamID)
    );
    assert_eq!(StreamIDParser::split_initial("".to_string()), Err(StreamError::InvalidStreamID));
}

#[test]
fn cutting_depends_on_what_the_search_found() {
    assert_eq!(
        StreamIDParser::split_matched("5-3".to_string(), Some(false)),
        Err(StreamError::InvalidStreamID)
    );
    assert_eq!(
        StreamIDParser::split_matched("5-3".to_string(), None),
        Err(StreamError::InvalidStreamID)
    );
    assert_eq!(
        StreamIDParser::split_matched("5-3".to_string(), Some(true)),
        Ok(spec("5", Some("3")))
    );
    assert_eq!(StreamIDParser::split_matched("53".to_string(), Some(true)), Ok(spec("53", None)));
    assert_eq!(StreamIDParser::split_matched("-3".to_string(), Some(true)), Ok(spec("", Some("3"))));
}

#[test]
fn range_bounds() {
    assert_eq!(StreamIDParser::to_stream_id("5".to_string(), Some("3".to_string())), Ok(id(5, 3)));
    assert_eq!(StreamIDParser::to_stream_id("-".to_string(), None), Ok(id(0, 0)));
    assert_eq!(
        StreamIDParser::to_stream_id("+".to_string(), None),
        Ok(id(usize::MAX, usize::MAX))
    );
    assert_eq!(
        StreamIDParser::to_stream_id("0".to_string(), Some("0".to_string())),
        Err(StreamError::StreamIDZero)
    );
}

#[test]
fn appends_give_growing_ids() {
    let mut store = StreamStore::new();
    assert!(store.try_read("s".to_string()).is_none());
    let a = store.try_write_at("s".to_string(), fields(&[("f", "v")]), spec("1", Some("1")), 50);
    let b = store.try_write_at("s".to_string(), fields(&[("f", "v")]), spec("1", Some("*")), 50);
    let c = store.try_write_at("s".to_string(), fields(&[("f", "v")]), spec("*", None), 50);
    let d = store.try_write_at("s".to_string(), fields(&[("g", "w")]), spec("*", None), 50);
    assert_eq!(a, Ok((1, 1)));
    assert_eq!(b, Ok((1, 2)));
    assert_eq!(c, Ok((50, 0)));
    assert_eq!(d, Ok((50, 1)));
    let stream = store.try_read("s".to_string()).unwrap();
    assert_eq!(stream.len(), 4);
    let ids: Vec<StreamID> = stream.range().iter().map(|e| *e.0).collect();
    assert_eq!(ids, vec![id(1, 1), id(1, 2), id(50, 0), id(50, 1)]);
    assert!(ids.windows(2).all(|w| w[0] < w[1]));
    assert_eq!(stream.get(3).1, &fields(&[("g", "w")]));
    assert_eq!(stream.last_key_value().map(|e| *e.0), Some(id(50, 1)));
}

#[test]
fn refused_appends_leave_the_stream_as_it_was() {
    let mut store = StreamStore::new();
    assert_eq!(
        store.try_write_at("s".to_string(), fields(&[("f", "v")]), spec("0", Some("0")), 9),
        Err(StreamError::StreamIDZero)
    );
    assert!(store.try_read("s".to_string()).is_none());
    assert_eq!(
        store.try_write_at("s".to_string(), fields(&[("f", "v")]), spec("1", Some("1")), 9),
        Ok((1, 1))
    );
    assert_eq!(
        store.try_write_at("s".to_string(), fields(&[("f", "v")]), spec("1", Some("1")), 9),
        Err(StreamError::InvalidStreamID)
    );
    assert_eq!(
        store.try_write_at("s".to_string(), fields(&[("f", "v")]), spec("0", Some("0")), 9),
        Err(StreamError::StreamIDZero)
    );
    assert_eq!(
        store.try_write_at("s".to_string(), fields(&[("f", "v")]), spec("x", None), 9),
        Err(StreamError::InvalidStreamID)
    );
    assert_eq!(store.try_read("s".to_string()).unwrap().len(), 1);
}

#[test]
fn streams_are_kept_apart_by_key() {
    let mut store = StreamStore::new();
    assert_eq!(store.append_at("a".to_string(), fields(&[("f", "v")]), Some(5), Some(5), 1), Ok((5, 5)));
    assert_eq!(store.append_at("b".to_string(), fields(&[("f", "v")]), Some(1), Some(1), 1), Ok((1, 1)));
    assert_eq!(store.append_at("a".to_string(), fields(&[("f", "v")]), Some(5), None, 1), Ok((5, 6)));
    assert_eq!(store.try_read("a".to_string()).unwrap().len(), 2);
    assert_eq!(store.try_read("b".to_string()).unwrap().len(), 1);
}

#[test]
fn wildcards_in_one_millisecond_and_as_the_clock_advances() {
    let mut store = StreamStore::new();
    assert_eq!(store.try_write_at("s".to_string(), fields(&[("f", "v")]), spec("*", None), 7), Ok((7, 0)));
    assert_eq!(store.try_write_at("s".to_string(), fields(&[("f", "v")]), spec("*", None), 7), Ok((7, 1)));
    let mut other = StreamStore::new();
    assert_eq!(other.try_write_at("s".to_string(), fields(&[("f", "v")]), spec("*", None), 7), Ok((7, 0)));
    assert_eq!(other.try_write_at("s".to_string(), fields(&[("f", "v")]), spec("*", None), 8), Ok((8, 0)));
}

#[test]
fn the_clock_gives_the_timestamp_of_a_wildcard() {
    let mut store = StreamStore::new();
    let (first, _) = store
        .try_write("s".to_string(), fields(&[("f", "v")]), spec("*", None))
        .unwrap();
    assert!(first > 1_600_000_000_000);
    let (second, seq) = store
        .try_write("s".to_string(), fields(&[("f", "v")]), spec("*", None))
        .unwrap();
    assert!(second > first || (second == first && seq > 0));
    let last = store.try_read("s".to_string()).unwrap().last_key_value().map(|e| *e.0);
    assert_eq!(StreamID::try_valid_stream_id("5".to_string(), Some("5".to_string()), last),
        Err(StreamError::InvalidStreamID));
    let stream = Stream::new();
    assert_eq!(
        StreamID::checked_new("5".to_string(), Some("*".to_string()), Some(&stream)),
        Ok(id(5, 0))
    );
    assert_eq!(
        StreamID::checked_new_at("*".to_string(), None, None, 3),
        Ok(id(3, 0))
    );
}

#[test]
fn entries_on_the_wire() {
    assert_eq!(StreamSerializer::stream_id(&id(15, 2)), "$4\r\n15-2\r\n");
    assert_eq!(
        StreamSerializer::v_to_arr(&fields(&[("a", "1"), ("bb", "22")])),
        "*4\r\n$1\r\na\r\n$1\r\n1\r\n$2\r\nbb\r\n$2\r\n22\r\n"
    );
    let first = id(1, 1);
    let second = id(2, 0);
    let one = fields(&[("f", "v")]);
    let none = fields(&[]);
    let range = vec![(&first, &one), (&second, &none)];
    assert_eq!(
        StreamSerializer::to_arr(&range),
        "*2\r\n*2\r\n$3\r\n1-1\r\n*2\r\n$1\r\nf\r\n$1\r\nv\r\n*2\r\n$3\r\n2-0\r\n*0\r\n"
    );
    assert_eq!(StreamSerializer::to_arr(&Vec::new()), "*0\r\n");
}

#[test]
fn stream_errors_have_their_texts() {
    assert_eq!(StreamError::StreamIDZero.to_string(), "Store Error: Stream ID must not be zero!");
    assert_eq!(StreamError::InvalidStreamID.to_string(), "Store Error: Invalid stream ID!");
}
