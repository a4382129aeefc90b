use mementic::generation::{meme_from_reply, ReplyFields, DEFAULT_FILE_SIZE_BYTES, DEFAULT_PROCESSING_TIME_BITS};
use mementic::ids::{anonymous_user, UserId};
use mementic::leaderboard::sort_entries;
use mementic::model::{MemeData, PythonMetadata, VoteType};
use mementic::state::Backend;

const NOW: u64 = 1_700_000_000_000_000_000;
const NOW_SECS: u64 = 1_700_000_000;
const WEEK_NS: u64 = 604_800_000_000_000;
const WEEK_SECS: u64 = 604_800;

fn user(n: u8) -> UserId {
    UserId::from_bytes(&[n, 5])
}

fn meme(url: &str) -> MemeData {
    MemeData {
        prompt: "p".to_string(),
        name: None,
        caption: None,
        image_url: url.to_string(),
        image_filename: "f.png".to_string(),
        image_format: "png".to_string(),
        metadata: PythonMetadata { processing_time_bits: 0, timestamp: 0, file_size_bytes: 0, service: String::new() },
    }
}

fn three_memes() -> Backend {
    let mut b = Backend::init(None, user(200), NOW);
    for n in 1..=3u8 {
        b.publish_meme_as(&user(n), meme(&format!("https://i/{}.png", n)), NOW).unwrap();
    }
    b
}

#[test]
fn live_counts_go_up_and_down() {
    let mut b = three_memes();
    assert_eq!(b.apply_vote(1, true), 1);
    assert_eq!(b.apply_vote(1, true), 2);
    assert_eq!(b.apply_vote(1, false), 1);
    assert_eq!(b.get_vote_count(1), 1);
    assert_eq!(b.apply_vote(2, false), 0);
    assert_eq!(b.get_vote_count(2), 0);
    b.set_vote_count(3, 42);
    assert_eq!(b.get_vote_count(3), 42);
    b.set_vote_count(3, 0);
    assert_eq!(b.get_vote_count(3), 0);
    b.set_vote_count(3, u64::MAX);
    assert_eq!(b.apply_vote(3, true), u64::MAX);
}

#[test]
fn an_upvote_and_a_downvote_cancel_out() {
    let mut b = three_memes();
    b.set_vote_count(2, 5);
    b.apply_vote(2, true);
    b.apply_vote(2, false);
    assert_eq!(b.get_vote_count(2), 5);
}

#[test]
fn entries_sort_by_votes_then_id() {
    let mut v = vec![(3u64, 5u64), (1, 7), (2, 5), (9, 0)];
    sort_entries(&mut v);
    assert_eq!(v, vec![(1, 7), (2, 5), (3, 5), (9, 0)]);
}

#[test]
fn the_live_leaderboard_is_ranked() {
    let mut b = three_memes();
    b.set_vote_count(1, 2);
    b.set_vote_count(2, 9);
    b.set_vote_count(3, 2);
    let top = b.current_leaderboard(0, 10);
    let got: Vec<(u64, u64, u32)> = top.iter().map(|e| (e.meme_id, e.votes, e.rank)).collect();
    assert_eq!(got, vec![(2, 9, 1), (1, 2, 2), (3, 2, 3)]);
    let page = b.current_leaderboard(1, 1);
    assert_eq!(page.len(), 1);
    assert_eq!((page[0].meme_id, page[0].rank), (1, 2));
    assert!(b.current_leaderboard(3, 5).is_empty());
    let board = b.snapshot_weekly_leaderboard(2810, 77, 2);
    assert_eq!(board.week_id, 2810);
    assert_eq!(board.finalized_at, 77);
    assert_eq!(board.top.len(), 2);
    assert_eq!(board.top[0].meme_id, 2);
}

#[test]
fn a_rollover_freezes_the_finished_week() {
    let mut b = three_memes();
    b.perform_vote(&user(9), 2, VoteType::Upvote, 10, NOW).unwrap();
    b.perform_vote(&user(8), 2, VoteType::Upvote, 10, NOW).unwrap();
    b.perform_vote(&user(9), 3, VoteType::Upvote, 10, NOW).unwrap();
    assert_eq!(b.maybe_perform_rollover_at(50, NOW_SECS), None);
    let later = NOW_SECS + WEEK_SECS;
    assert_eq!(b.maybe_perform_rollover_at(50, later), Some(2810));
    assert_eq!(b.get_active_week_id(), 2811);
    // A second check at the same time does nothing.
    assert_eq!(b.maybe_perform_rollover_at(50, later), None);
    let board = b.get_weekly_leaderboard(2810).unwrap();
    let got: Vec<(u64, u64, u32)> = board.top.iter().map(|e| (e.meme_id, e.votes, e.rank)).collect();
    assert_eq!(got, vec![(2, 2, 1), (3, 1, 2), (1, 0, 3)]);
    assert_eq!(board.finalized_at, later);
    assert_eq!(b.get_vote_count(2), 0);
    let m = b.get_meme(2).unwrap();
    assert!(m.finalized);
    assert!(m.week_ended);
    assert_eq!(m.finalized_at, Some(later));
    assert_eq!(b.list_finalized_weeks(0, 10), vec![2810]);
}

#[test]
fn finalizing_a_week_closes_it_and_clears_its_votes() {
    let mut b = three_memes();
    b.perform_vote(&user(9), 3, VoteType::Upvote, 10, NOW).unwrap();
    b.perform_vote(&user(8), 3, VoteType::Upvote, 10, NOW + 1).unwrap();
    b.perform_vote(&user(9), 1, VoteType::Upvote, 10, NOW).unwrap();
    assert_eq!(b.get_top3_for_week(2810).err().unwrap(), "Week not completed yet");
    assert_eq!(b.get_top3_for_week(17).err().unwrap(), "Week not found");
    assert_eq!(b.finalize_week(9999, NOW).err().unwrap(), "Cannot finalize future week");
    assert_eq!(b.finalize_week(2810, NOW + WEEK_NS), Ok(()));
    assert!(b.get_top3_for_week(2810).unwrap().is_empty());
    assert!(b.get_meme_votes(3).is_none());
    assert_eq!(b.get_completed_weeks().len(), 1);
    assert_eq!(b.get_completed_weeks()[0].week_id, 2810);
}

#[test]
fn reset_clears_memes_votes_and_weeks() {
    let mut b = three_memes();
    b.perform_vote(&user(9), 2, VoteType::Upvote, 10, NOW).unwrap();
    let msg = b.reset_system_to_week_1_at(NOW).unwrap();
    assert_eq!(msg, "System reset to week 1 complete. All data cleared, counters reset.");
    assert_eq!(b.get_active_week(), 1);
    // The time of the reset falls in week 1.
    assert_eq!(b.compute_week_id(NOW_SECS), 1);
    assert_eq!(b.get_week_offset(), WEEK_SECS as i64 - ((NOW_SECS / WEEK_SECS) * WEEK_SECS) as i64);
    assert!(b.get_meme_votes(2).is_none());
    assert_eq!(b.get_vote_count(2), 0);
    assert!(b.week_meme_ids(2810).is_empty());
    let p = b.get_week_period(1).unwrap();
    assert_eq!((p.start_time, p.end_time, p.is_completed, p.meme_count), (NOW, NOW + WEEK_NS, false, 0));
    assert!(b.get_all_memes().is_empty());
    assert!(b.get_meme(2).is_none());
    assert!(b.get_user_memes(&user(2)).is_empty());
}

#[test]
fn forcing_the_end_of_a_week_is_for_the_administrator() {
    let mut b = three_memes();
    b.perform_vote(&user(9), 2, VoteType::Upvote, 10, NOW).unwrap();
    assert_eq!(b.force_finalize_current_week_at(&anonymous_user(), NOW).err().unwrap(), "Authentication required");
    assert_eq!(b.force_finalize_current_week_at(&user(1), NOW).err().unwrap(), "Admin access required");
    assert_eq!(b.get_vote_count(2), 1);
    assert_eq!(b.get_active_week(), 2810);
    let msg = b.force_finalize_current_week_at(&user(200), NOW).unwrap();
    assert_eq!(msg, "Week 2810 force-finalized with 1 winners. Advanced to week 2811");
    assert_eq!(b.get_active_week(), 2811);
    assert_eq!(
        b.force_finalize_current_week_at(&user(200), NOW).err().unwrap(),
        "Current week is already completed"
    );
}

#[test]
fn week_offsets_are_set_by_the_administrator() {
    let mut b = three_memes();
    b.admin_set_week_offset(-3600);
    assert_eq!(b.get_week_offset(), -3600);
    assert_eq!(b.compute_week_id(WEEK_SECS), 0);
}

#[test]
fn generation_checks_before_the_request() {
    let b = three_memes();
    let u = user(1);
    assert_eq!(b.generation_request(&u, "   ", NOW).err().unwrap(), "Prompt cannot be empty");
    assert_eq!(
        b.generation_request(&anonymous_user(), "cat", NOW).err().unwrap(),
        "Authentication required"
    );
    assert_eq!(
        b.generation_request(&u, "happy cat!", NOW).unwrap(),
        "https://dark-shape-faac.h28177922.workers.dev/generate_meme?prompt=happy%20cat%21"
    );
}

#[test]
fn generation_quota_and_worker_status() {
    let mut b = three_memes();
    let u = user(1);
    assert_eq!(b.finish_generation(&u, NOW, 500).err().unwrap(), "HTTP 500 from worker");
    assert_eq!(b.finish_generation(&u, NOW, 199).err().unwrap(), "HTTP 199 from worker");
    assert_eq!(b.check_remaining_calls(&u, NOW), 3);
    for _ in 0..3 {
        assert!(b.generation_request(&u, "cat", NOW).is_ok());
        assert!(b.finish_generation(&u, NOW, 200).is_ok());
    }
    assert_eq!(
        b.generation_request(&u, "cat", NOW).err().unwrap(),
        "Daily meme generation limit reached. Please try again tomorrow."
    );
    assert_eq!(b.check_remaining_calls(&u, NOW), 0);
}

#[test]
fn replies_beyond_the_quota_are_refused() {
    let mut b = three_memes();
    let u = user(1);
    // Four requests pass their checks before any reply comes back.
    for _ in 0..4 {
        assert!(b.generation_request(&u, "cat", NOW).is_ok());
    }
    for _ in 0..3 {
        assert!(b.finish_generation(&u, NOW, 200).is_ok());
    }
    assert_eq!(
        b.finish_generation(&u, NOW, 200).err().unwrap(),
        "Daily meme generation limit reached. Please try again tomorrow."
    );
    assert_eq!(b.check_remaining_calls(&u, NOW), 0);
}

#[test]
fn reply_fields_take_defaults() {
    let f = ReplyFields {
        prompt: None,
        name: None,
        caption: None,
        image_url: None,
        image_filename: None,
        image_format: None,
        processing_time_bits: None,
        timestamp: None,
        file_size_bytes: None,
        service: None,
    };
    let m = meme_from_reply("asked".to_string(), f, 99);
    assert_eq!(m.prompt, "asked");
    assert_eq!(m.image_url, "");
    assert_eq!(m.image_filename, "generated_meme.png");
    assert_eq!(m.image_format, "png");
    assert_eq!(m.metadata.processing_time_bits, DEFAULT_PROCESSING_TIME_BITS);
    assert_eq!(f64::from_bits(m.metadata.processing_time_bits), 1.0);
    assert_eq!(m.metadata.timestamp, 99);
    assert_eq!(m.metadata.file_size_bytes, DEFAULT_FILE_SIZE_BYTES);
    assert_eq!(m.metadata.service, "icp-meme-generator");
    assert!(m.name.is_none() && m.caption.is_none());
    let g = ReplyFields {
        prompt: Some("given".to_string()),
        name: None,
        caption: None,
        image_url: Some("https://x".to_string()),
        image_filename: Some("a.jpg".to_string()),
        image_format: Some("jpg".to_string()),
        processing_time_bits: Some(2.5f64.to_bits()),
        timestamp: Some(5),
        file_size_bytes: Some(6),
        service: Some("s".to_string()),
    };
    let m = meme_from_reply("asked".to_string(), g, 99);
    assert_eq!(m.prompt, "given");
    assert_eq!(m.image_url, "https://x");
    assert_eq!(m.image_format, "jpg");
    assert_eq!(m.metadata.timestamp, 5);
    assert_eq!(m.metadata.file_size_bytes, 6);
    assert_eq!(f64::from_bits(m.metadata.processing_time_bits), 2.5);
}
