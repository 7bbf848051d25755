use flappy_bird::score_file::{load_high_score, read_score, save_score, ScoreFileError, SCORE_FILE_LEN};
use flappy_bird::session::{Config, GameSession};

#[test]
fn score_is_stored_least_significant_byte_first() {
    assert_eq!(save_score(0), vec![0, 0, 0, 0]);
    assert_eq!(save_score(1), vec![1, 0, 0, 0]);
    assert_eq!(save_score(267), vec![0x0b, 0x01, 0, 0]);
    assert_eq!(save_score(0x12345678), vec![0x78, 0x56, 0x34, 0x12]);
    assert_eq!(save_score(i32::MAX), vec![0xff, 0xff, 0xff, 0x7f]);
}

#[test]
fn negative_score_is_stored_in_twos_complement() {
    assert_eq!(save_score(-1), vec![0xff, 0xff, 0xff, 0xff]);
    assert_eq!(save_score(-2), vec![0xfe, 0xff, 0xff, 0xff]);
    assert_eq!(save_score(-34253), vec![0x33, 0x7a, 0xff, 0xff]);
    assert_eq!(save_score(i32::MIN), vec![0, 0, 0, 0x80]);
}

#[test]
fn stored_score_takes_four_bytes() {
    assert_eq!(SCORE_FILE_LEN, 4);
    for n in [0, 1, -1, 255, 256, 65536, i32::MAX, i32::MIN] {
        assert_eq!(save_score(n).len(), 4);
    }
}

#[test]
fn score_is_read_least_significant_byte_first() {
    assert_eq!(read_score(&[0, 0, 0, 0]), Ok(0));
    assert_eq!(read_score(&[0x0b, 0x01, 0, 0]), Ok(267));
    assert_eq!(read_score(&[0x78, 0x56, 0x34, 0x12]), Ok(0x12345678));
    assert_eq!(read_score(&[0xff, 0xff, 0xff, 0xff]), Ok(-1));
    assert_eq!(read_score(&[0x33, 0x7a, 0xff, 0xff]), Ok(-34253));
    assert_eq!(read_score(&[0, 0, 0, 0x80]), Ok(i32::MIN));
    assert_eq!(read_score(&[0xff, 0xff, 0xff, 0x7f]), Ok(i32::MAX));
}

#[test]
fn bytes_after_the_fourth_are_ignored() {
    assert_eq!(read_score(&[5, 0, 0, 0, 9, 9, 9]), Ok(5));
    assert_eq!(read_score(&[0xff, 0xff, 0xff, 0xff, 1]), Ok(-1));
}

#[test]
fn short_file_is_truncated() {
    assert_eq!(read_score(&[]), Err(ScoreFileError::Truncated));
    assert_eq!(read_score(&[1]), Err(ScoreFileError::Truncated));
    assert_eq!(read_score(&[1, 2, 3]), Err(ScoreFileError::Truncated));
}

#[test]
fn saved_score_reads_back() {
    for n in [0, 1, 2, 9, 10, 255, 256, 257, 65535, 65536, 16777215, 16777216, 123456789, i32::MAX, -1, -2, -255, -256, -65536, -16777216, -16777217, i32::MIN, i32::MIN + 1] {
        assert_eq!(read_score(&save_score(n)), Ok(n));
        assert_eq!(load_high_score(Some(&save_score(n))), n);
    }
}

#[test]
fn saved_high_score_starts_the_next_session() {
    let mut first = GameSession::new(Config::standard(), 41).unwrap();
    let file = first.handle_save_score();
    let second = GameSession::new(Config::standard(), load_high_score(Some(&file))).unwrap();
    assert_eq!(second.high_score(), 41);
    assert_eq!(second.score(), 0);
}

#[test]
fn missing_file_starts_the_high_score_at_zero() {
    assert_eq!(load_high_score(None), 0);
    let session = GameSession::new(Config::standard(), load_high_score(None)).unwrap();
    assert_eq!(session.high_score(), 0);
}

#[test]
fn truncated_file_starts_the_high_score_at_zero() {
    assert_eq!(load_high_score(Some(&[])), 0);
    assert_eq!(load_high_score(Some(&[7])), 0);
    assert_eq!(load_high_score(Some(&[7, 7, 7])), 0);
    assert_eq!(load_high_score(Some(&[7, 0, 0, 0])), 7);
}
