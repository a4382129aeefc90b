use mementic::ids::{anonymous_user, UserId};
use mementic::model::{MemeData, PythonMetadata, VoteType};
use mementic::state::Backend;
use mementic::voting::WEEKLY_POWER_CAP;

/// 2023-11-14, in week 2810.
const NOW: u64 = 1_700_000_000_000_000_000;
const WEEK_NS: u64 = 604_800_000_000_000;

fn user(n: u8) -> UserId {
    UserId::from_bytes(&[n, 7, 7])
}

fn meme(url: &str) -> MemeData {
    MemeData {
        prompt: "a cat".to_string(),
        name: None,
        caption: None,
        image_url: url.to_string(),
        image_filename: "cat.png".to_string(),
        image_format: "png".to_string(),
        metadata: PythonMetadata {
            processing_time_bits: 0,
            timestamp: 1,
            file_size_bytes: 2,
            service: "svc".to_string(),
        },
    }
}

fn with_memes() -> Backend {
    let mut b = Backend::init(None, user(100), NOW);
    assert_eq!(b.publish_meme_as(&user(1), meme("https://img/1.png"), NOW).unwrap().id, 1);
    assert_eq!(b.publish_meme_as(&user(2), meme("https://img/2.png"), NOW).unwrap().id, 2);
    b
}

#[test]
fn a_vote_is_recorded_and_counted() {
    let mut b = with_memes();
    let r = b.perform_vote(&user(3), 1, VoteType::Upvote, 10, NOW).unwrap();
    assert!(r.success);
    assert_eq!(r.message, "Vote recorded");
    assert_eq!(r.new_vote_count, 1);
    assert!(r.user_previous_vote.is_none());
    assert_eq!(b.get_vote_count(1), 1);
    let mv = b.get_meme_votes(1).unwrap();
    assert_eq!((mv.upvotes, mv.downvotes, mv.total_voters), (1, 0, 1));
    assert_eq!(mv.created_week, 2810);
    assert_eq!(mv.last_vote_time, NOW);
    assert_eq!(b.get_user_vote(&user(3), 1).unwrap().vote_type, VoteType::Upvote);
    assert_eq!(b.get_voting_power(&user(3), NOW).remaining, WEEKLY_POWER_CAP - 10);
}

#[test]
fn a_vote_can_be_changed() {
    let mut b = with_memes();
    b.perform_vote(&user(3), 1, VoteType::Upvote, 10, NOW).unwrap();
    let r = b.perform_vote(&user(3), 1, VoteType::Downvote, 10, NOW).unwrap();
    assert!(r.success);
    assert_eq!(r.user_previous_vote, Some(VoteType::Upvote));
    assert_eq!(r.new_vote_count, 1);
    let mv = b.get_meme_votes(1).unwrap();
    assert_eq!((mv.upvotes, mv.downvotes, mv.total_voters), (0, 1, 1));
    assert_eq!(b.get_user_vote(&user(3), 1).unwrap().vote_type, VoteType::Downvote);
    assert_eq!(b.get_vote_count(1), 0);
    // Each vote spends power.
    assert_eq!(b.get_voting_power(&user(3), NOW).remaining, 80);
    // The upvote cast first still counts among all upvotes ever cast.
    assert_eq!(b.get_lifetime_votes(), 1);
}

#[test]
fn lifetime_votes_never_go_down() {
    let mut b = with_memes();
    b.perform_vote(&user(3), 1, VoteType::Upvote, 10, NOW).unwrap();
    b.perform_vote(&user(4), 1, VoteType::Upvote, 10, NOW).unwrap();
    assert_eq!(b.get_lifetime_votes(), 2);
    b.remove_vote_as(&user(3), 1, NOW).unwrap();
    assert!(b.delete_meme_data(1).is_ok());
    assert_eq!(b.get_lifetime_votes(), 2);
}

#[test]
fn vote_input_errors() {
    let mut b = with_memes();
    let anon = anonymous_user();
    assert_eq!(b.perform_vote(&anon, 1, VoteType::Upvote, 10, NOW).err().unwrap(), "Authentication required");
    assert_eq!(b.perform_vote(&user(3), 0, VoteType::Upvote, 10, NOW).err().unwrap(), "Invalid meme ID");
    assert_eq!(
        b.perform_vote(&user(3), 1, VoteType::Upvote, 0, NOW).err().unwrap(),
        "Voting cost must be greater than zero"
    );
    assert_eq!(
        b.perform_vote(&user(3), 1, VoteType::Upvote, 101, NOW).err().unwrap(),
        "Voting cost exceeds weekly cap"
    );
    assert_eq!(b.perform_vote(&user(3), 99, VoteType::Upvote, 10, NOW).err().unwrap(), "Meme not found");
    assert_eq!(
        b.perform_vote(&user(1), 1, VoteType::Upvote, 10, NOW).err().unwrap(),
        "Cannot vote on your own meme"
    );
}

#[test]
fn voting_power_runs_out() {
    let mut b = with_memes();
    b.perform_vote(&user(3), 1, VoteType::Upvote, 95, NOW).unwrap();
    assert_eq!(
        b.perform_vote(&user(3), 2, VoteType::Upvote, 10, NOW).err().unwrap(),
        "Insufficient voting power"
    );
    b.perform_vote(&user(3), 2, VoteType::Downvote, 5, NOW).unwrap();
    assert_eq!(b.get_voting_power(&user(3), NOW).remaining, 0);
}

#[test]
fn power_is_fresh_in_a_new_week() {
    let mut b = with_memes();
    b.perform_vote(&user(3), 1, VoteType::Upvote, 50, NOW).unwrap();
    let p = b.get_voting_power(&user(3), NOW + WEEK_NS);
    assert_eq!(p.remaining, 100);
    assert_eq!(p.cap, 100);
    assert_eq!(p.week_id, 2811);
}

#[test]
fn vote_with_power_charges_the_default_for_zero() {
    let mut b = with_memes();
    b.vote_with_power_as(&user(3), 1, VoteType::Upvote, 0, NOW).unwrap();
    assert_eq!(b.get_voting_power(&user(3), NOW).remaining, 90);
    assert_eq!(
        b.vote_with_power_as(&user(4), 1, VoteType::Upvote, 150, NOW).err().unwrap(),
        "Voting cost exceeds weekly cap"
    );
}

#[test]
fn a_vote_can_be_withdrawn() {
    let mut b = with_memes();
    b.perform_vote(&user(3), 1, VoteType::Upvote, 10, NOW).unwrap();
    let r = b.remove_vote_as(&user(3), 1, NOW + 5).unwrap();
    assert!(r.success);
    assert_eq!(r.message, "Vote removed");
    assert_eq!(r.new_vote_count, 0);
    assert_eq!(r.user_previous_vote, Some(VoteType::Upvote));
    let mv = b.get_meme_votes(1).unwrap();
    assert_eq!((mv.upvotes, mv.downvotes, mv.total_voters), (0, 0, 0));
    assert_eq!(mv.last_vote_time, NOW + 5);
    assert_eq!(b.get_vote_count(1), 0);
    assert!(b.get_user_vote(&user(3), 1).is_none());
    // The power spent is not given back.
    assert_eq!(b.get_voting_power(&user(3), NOW).remaining, 90);
    assert_eq!(b.remove_vote_as(&user(3), 1, NOW).err().unwrap(), "No vote found to remove");
    assert_eq!(
        b.remove_vote_as(&user(1), 1, NOW).err().unwrap(),
        "Cannot remove votes from your own meme"
    );
}

#[test]
fn memes_of_an_earlier_week_cannot_be_voted_on() {
    let mut b = with_memes();
    let later = NOW + WEEK_NS;
    assert_eq!(
        b.perform_vote(&user(3), 1, VoteType::Upvote, 10, later).err().unwrap(),
        "Can only vote on memes from the current week"
    );
}

#[test]
fn deleting_meme_data_forgets_every_vote_on_it() {
    let mut b = with_memes();
    b.perform_vote(&user(3), 1, VoteType::Upvote, 10, NOW).unwrap();
    b.perform_vote(&user(4), 1, VoteType::Downvote, 10, NOW).unwrap();
    b.perform_vote(&user(3), 2, VoteType::Upvote, 10, NOW).unwrap();
    assert!(b.delete_meme_data(1).is_ok());
    assert!(b.get_meme_votes(1).is_none());
    assert!(b.get_user_vote(&user(3), 1).is_none());
    assert!(b.get_user_vote(&user(4), 1).is_none());
    assert!(b.get_user_vote(&user(3), 2).is_some());
}

#[test]
fn stats_sum_the_tallies() {
    let mut b = with_memes();
    b.perform_vote(&user(3), 1, VoteType::Upvote, 10, NOW).unwrap();
    b.perform_vote(&user(4), 1, VoteType::Downvote, 10, NOW).unwrap();
    b.perform_vote(&user(3), 2, VoteType::Upvote, 10, NOW).unwrap();
    assert_eq!(b.get_voting_stats(), (3, 2));
    assert_eq!(b.get_lifetime_votes(), 2);
    assert_eq!(b.get_current_week_meme_count(), 2);
}

#[test]
fn the_week_status_reports_time_left() {
    let mut b = with_memes();
    let (week, left, end, done) = b.get_current_week_status(NOW);
    assert_eq!(week, 2810);
    assert_eq!(end, 2811 * WEEK_NS);
    assert_eq!(left, 2811 * WEEK_NS - NOW);
    assert!(!done);
}

#[test]
fn top_liked_memes_rank_by_upvotes() {
    let mut b = with_memes();
    b.perform_vote(&user(3), 2, VoteType::Upvote, 10, NOW).unwrap();
    b.perform_vote(&user(4), 2, VoteType::Upvote, 10, NOW).unwrap();
    b.perform_vote(&user(5), 1, VoteType::Upvote, 10, NOW).unwrap();
    let top = b.get_top_liked_memes(None);
    assert_eq!(top.total_ranked, 2);
    assert_eq!(top.top_memes.len(), 2);
    assert_eq!(top.top_memes[0].meme_id, 2);
    assert_eq!(top.top_memes[0].rank, 1);
    assert_eq!(top.top_memes[1].meme_id, 1);
    assert_eq!(top.top_memes[1].rank, 2);
    assert_eq!(top.top_memes[0].meme_data.as_ref().unwrap().id, 2);
}

#[test]
fn top_liked_memes_span_every_week() {
    let mut b = with_memes();
    b.perform_vote(&user(3), 2, VoteType::Upvote, 10, NOW).unwrap();
    b.perform_vote(&user(3), 1, VoteType::Downvote, 10, NOW).unwrap();
    b.set_active_week_id(9999);
    let top = b.get_top_liked_memes(Some(10));
    let ids: Vec<u64> = top.top_memes.iter().map(|e| e.meme_id).collect();
    assert_eq!(ids, vec![2, 1]);
    assert_eq!(top.total_ranked, 2);
}
