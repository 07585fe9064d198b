use learn_server::game::server::{first_message_username, AnswerOutcome, PlayerAction, PlayerEvent};
use learn_server::game::state::AppState;
use learn_server::game::types::{check_answer, Question, QuestionList};

fn question_list(questions: Vec<Question>) -> QuestionList {
    QuestionList { questions: Box::leak(questions.into_boxed_slice()) }
}

fn capitals() -> Question {
    Question { text: "Capital of France?", options: ["Paris", "Lyon", "Nice", "Lille"] }
}

#[test]
fn check_answer_compares_indices() {
    assert!(check_answer(2, 2));
    assert!(!check_answer(1, 2));
}

#[test]
fn points_are_added_then_updated_in_place() {
    let mut state: AppState<u8> = AppState::new();
    state.add_or_update_points("ann", 1);
    state.add_or_update_points("bob", 5);
    state.add_or_update_points("ann", 2);
    let snapshot = state.get_points_snapshot();
    assert_eq!(snapshot, vec![("ann".to_string(), 3), ("bob".to_string(), 5)]);
    assert_eq!(state.points_of("ann"), 3);
    assert_eq!(state.points_of("bob"), 5);
    assert_eq!(state.points_of("cid"), 0);
}

#[test]
fn points_saturate_at_u16_max() {
    let mut state: AppState<u8> = AppState::new();
    state.add_or_update_points("ann", u16::MAX - 1);
    state.add_or_update_points("ann", 5);
    assert_eq!(state.points_of("ann"), u16::MAX);
    state.add_or_update_points("ann", 1);
    assert_eq!(state.points_of("ann"), u16::MAX);
}

#[test]
fn points_snapshot_packs_the_table() {
    let mut state: AppState<u8> = AppState::new();
    assert!(state.to_points_snapshot().points.is_empty());
    state.add_or_update_points("ann", 4);
    let snapshot = state.to_points_snapshot();
    assert_eq!(snapshot.points, vec![("ann".to_string(), 4)]);
}

#[test]
fn clients_are_added_replaced_and_removed() {
    let mut state: AppState<u32> = AppState::new();
    state.add_client("ann".to_string(), 1);
    state.add_client("bob".to_string(), 2);
    assert_eq!(state.client("ann"), Some(&1));
    state.add_client("ann".to_string(), 3);
    assert_eq!(state.client("ann"), Some(&3));
    assert_eq!(state.list_connected_users(), vec!["ann".to_string(), "bob".to_string()]);
    assert_eq!(state.client_sockets(), vec![&3, &2]);
    state.remove_client("ann");
    assert_eq!(state.client("ann"), None);
    assert_eq!(state.client("bob"), Some(&2));
    assert_eq!(state.list_connected_users(), vec!["bob".to_string()]);
    state.remove_client("nobody");
    assert_eq!(state.list_connected_users(), vec!["bob".to_string()]);
}

#[test]
fn clients_do_not_touch_points() {
    let mut state: AppState<u32> = AppState::new();
    state.add_or_update_points("ann", 2);
    state.add_client("ann".to_string(), 9);
    state.remove_client("ann");
    assert_eq!(state.points_of("ann"), 2);
}

#[test]
fn judge_answer_credits_a_correct_reply() {
    let mut state: AppState<u8> = AppState::new();
    assert_eq!(state.judge_answer("ann", "2", 2), AnswerOutcome::Correct(1));
    assert_eq!(state.judge_answer("ann", " 2\n", 2), AnswerOutcome::Correct(2));
    assert_eq!(state.points_of("ann"), 2);
}

#[test]
fn judge_answer_wrong_and_invalid_replies_change_nothing() {
    let mut state: AppState<u8> = AppState::new();
    assert_eq!(state.judge_answer("ann", "1", 2), AnswerOutcome::Wrong);
    assert_eq!(state.judge_answer("ann", "two", 2), AnswerOutcome::Invalid);
    assert_eq!(state.judge_answer("ann", "", 2), AnswerOutcome::Invalid);
    assert_eq!(state.judge_answer("ann", "-2", 2), AnswerOutcome::Invalid);
    assert!(state.get_points_snapshot().is_empty());
}

#[test]
fn reply_codes() {
    assert_eq!(AnswerOutcome::Correct(3).reply_code(), "0");
    assert_eq!(AnswerOutcome::Wrong.reply_code(), "1");
    assert_eq!(AnswerOutcome::Invalid.reply_code(), "2");
}

#[test]
fn arrange_question_follows_the_draws() {
    let list = question_list(vec![capitals()]);
    // No exchange at all: the draws name the positions themselves.
    let (q, correct) = list.arrange_question(0, [3, 2, 1]);
    assert_eq!(q.text, "Capital of France?");
    assert_eq!(q.options, ["Paris", "Lyon", "Nice", "Lille"].map(String::from));
    assert_eq!(correct, 0);
    // Exchange 3 with 0, then 2 with 2, then 1 with 0.
    let (q, correct) = list.arrange_question(0, [0, 2, 0]);
    assert_eq!(q.options, ["Lyon", "Lille", "Nice", "Paris"].map(String::from));
    assert_eq!(correct, 3);
}

#[test]
fn arrange_question_points_at_first_copy_of_correct_text() {
    let list = question_list(vec![Question { text: "Pick", options: ["x", "y", "x", "z"] }]);
    let (q, correct) = list.arrange_question(0, [2, 0, 0]);
    // 3<->2: x y z x ; 2<->0: z y x x ; 1<->0: y z x x
    assert_eq!(q.options, ["y", "z", "x", "x"].map(String::from));
    assert_eq!(correct, 2);
}

#[test]
fn select_random_question_is_a_permutation_with_correct_index() {
    let list = question_list(vec![
        capitals(),
        Question { text: "2 + 2?", options: ["4", "3", "5", "22"] },
    ]);
    for _ in 0..200 {
        let (q, correct) = list.select_random_question();
        let source = list.questions.iter().find(|s| s.text == q.text).expect("known question");
        let mut got: Vec<String> = q.options.to_vec();
        let mut want: Vec<String> = source.options.iter().map(|s| s.to_string()).collect();
        got.sort();
        want.sort();
        assert_eq!(got, want);
        assert!(correct < 4);
        assert_eq!(q.options[correct], source.options[0]);
    }
}

#[test]
fn judge_answer_trims_unicode_white_space() {
    let mut state: AppState<u8> = AppState::new();
    assert_eq!(state.judge_answer("ann", "\u{3000}1\u{a0}\t", 1), AnswerOutcome::Correct(1));
    assert_eq!(state.judge_answer("ann", "\u{200b}1", 1), AnswerOutcome::Invalid);
}

#[test]
fn first_message_names_the_player() {
    assert_eq!(first_message_username(PlayerEvent::Text("ann".to_string())), Some("ann".to_string()));
    assert_eq!(first_message_username(PlayerEvent::Close), None);
    assert_eq!(first_message_username(PlayerEvent::Error), None);
    assert_eq!(first_message_username(PlayerEvent::Other), None);
}

#[test]
fn player_events_are_handled() {
    let mut state: AppState<u8> = AppState::new();
    state.add_client("ann".to_string(), 1);
    state.add_client("bob".to_string(), 2);
    assert_eq!(
        state.handle_player_event("ann", PlayerEvent::Text(" 3 ".to_string()), 3),
        PlayerAction::Answered(AnswerOutcome::Correct(1))
    );
    assert_eq!(
        state.handle_player_event("ann", PlayerEvent::Text("0".to_string()), 3),
        PlayerAction::Answered(AnswerOutcome::Wrong)
    );
    assert_eq!(
        state.handle_player_event("ann", PlayerEvent::Text("x".to_string()), 3),
        PlayerAction::Answered(AnswerOutcome::Invalid)
    );
    assert_eq!(state.handle_player_event("ann", PlayerEvent::Other, 3), PlayerAction::Ignored);
    assert_eq!(state.list_connected_users(), vec!["ann".to_string(), "bob".to_string()]);
    assert_eq!(state.handle_player_event("ann", PlayerEvent::Close, 3), PlayerAction::Disconnected);
    assert_eq!(state.handle_player_event("bob", PlayerEvent::Error, 3), PlayerAction::ConnectionLost);
    assert!(state.list_connected_users().is_empty());
    assert_eq!(state.points_of("ann"), 1);
}
