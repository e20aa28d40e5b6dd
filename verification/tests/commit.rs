use list_picker::commit::{commit_choice, resolve_and_commit};
use list_picker::draw::draw_batch;
use list_picker::input::InputError;
use list_picker::storage::render_pool;

fn pool_of(items: &[&str]) -> Vec<String> {
    items.iter().map(|item| item.to_string()).collect()
}

#[test]
fn removing_choice_puts_back_the_rest_of_the_batch() {
    for k in 1..=5usize {
        let mut batch = pool_of(&["a", "b", "c", "d", "e"]);
        let mut pool = pool_of(&["x", "y"]);
        let chosen = commit_choice(&mut batch, k - 1, true, &mut pool);
        let mut rest = pool_of(&["a", "b", "c", "d", "e"]);
        let expected_choice = rest.remove(k - 1);
        let mut expected = pool_of(&["x", "y"]);
        expected.extend(rest);
        assert_eq!(chosen, expected_choice);
        assert_eq!(pool, expected);
        assert!(batch.is_empty());
    }
}

#[test]
fn keeping_choice_puts_back_the_whole_batch() {
    for k in 1..=5usize {
        let mut batch = pool_of(&["a", "b", "c", "d", "e"]);
        let mut pool = pool_of(&["x", "y"]);
        let chosen = commit_choice(&mut batch, k - 1, false, &mut pool);
        assert_eq!(chosen, ["a", "b", "c", "d", "e"][k - 1]);
        assert_eq!(pool, pool_of(&["x", "y", "a", "b", "c", "d", "e"]));
        assert!(batch.is_empty());
    }
}

#[test]
fn removing_choice_of_the_third_candidate() {
    let mut batch = pool_of(&["a", "b", "c", "d", "e"]);
    let mut pool = pool_of(&["f"]);
    assert_eq!(commit_choice(&mut batch, 2, true, &mut pool), "c");
    assert_eq!(pool, pool_of(&["f", "a", "b", "d", "e"]));
}

#[test]
fn rejected_line_leaves_batch_and_pool_as_they_were() {
    for line in ["0\n", "6\n", "\n", "x\n", "-3\n", "99999999999999999999999999\n"] {
        for remove in [false, true] {
            let mut batch = pool_of(&["a", "b", "c", "d", "e"]);
            let mut pool = pool_of(&["x"]);
            assert!(resolve_and_commit(line, remove, &mut batch, &mut pool).is_err());
            assert_eq!(batch, pool_of(&["a", "b", "c", "d", "e"]));
            assert_eq!(pool, pool_of(&["x"]));
        }
    }
}

#[test]
fn rejected_line_says_why() {
    let mut batch = pool_of(&["a", "b", "c", "d", "e"]);
    let mut pool = pool_of(&["x"]);
    assert_eq!(
        resolve_and_commit("0\n", true, &mut batch, &mut pool),
        Err(InputError::IndexTooHigh)
    );
    assert_eq!(
        resolve_and_commit("6\n", true, &mut batch, &mut pool),
        Err(InputError::IndexTooHigh)
    );
    assert_eq!(resolve_and_commit("\n", true, &mut batch, &mut pool), Err(InputError::Empty));
    assert_eq!(
        resolve_and_commit("c\n", true, &mut batch, &mut pool),
        Err(InputError::InvalidDigit)
    );
}

#[test]
fn accepted_line_settles_the_round() {
    let mut batch = pool_of(&["a", "b", "c", "d", "e"]);
    let mut pool = pool_of(&["x"]);
    assert_eq!(resolve_and_commit("1\n", true, &mut batch, &mut pool), Ok("a".to_string()));
    assert_eq!(pool, pool_of(&["x", "b", "c", "d", "e"]));
    assert!(batch.is_empty());

    let mut batch = pool_of(&["a", "b", "c", "d", "e"]);
    let mut pool = pool_of(&["x"]);
    assert_eq!(resolve_and_commit("5\r\n", false, &mut batch, &mut pool), Ok("e".to_string()));
    assert_eq!(pool, pool_of(&["x", "a", "b", "c", "d", "e"]));
    assert!(batch.is_empty());
}

#[test]
fn ordered_round_with_the_third_candidate_chosen() {
    let mut pool = pool_of(&["a", "b", "c", "d", "e", "f"]);
    let mut batch = draw_batch(false, true, &mut pool);
    assert_eq!(batch, pool_of(&["a", "b", "c", "d", "e"]));
    assert_eq!(pool, pool_of(&["f"]));
    let chosen = resolve_and_commit("3\n", true, &mut batch, &mut pool).unwrap();
    assert_eq!(chosen, "c");
    assert_eq!(pool, pool_of(&["f", "a", "b", "d", "e"]));
    assert_eq!(render_pool(&pool), "f\na\nb\nd\ne");
}

#[test]
fn round_after_rejected_lines() {
    let mut pool = pool_of(&["a", "b", "c", "d", "e", "f"]);
    let mut batch = draw_batch(false, true, &mut pool);
    assert!(resolve_and_commit("0\n", true, &mut batch, &mut pool).is_err());
    assert!(resolve_and_commit("six\n", true, &mut batch, &mut pool).is_err());
    assert!(resolve_and_commit("6\n", true, &mut batch, &mut pool).is_err());
    assert_eq!(resolve_and_commit("5\n", true, &mut batch, &mut pool), Ok("e".to_string()));
    assert_eq!(pool, pool_of(&["f", "a", "b", "c", "d"]));
}

#[test]
fn random_keeping_round_grows_the_pool_by_the_batch() {
    let before = pool_of(&["a", "b", "c"]);
    let mut pool = before.clone();
    let mut batch = draw_batch(true, false, &mut pool);
    let drawn = batch.clone();
    let chosen = resolve_and_commit("2\n", false, &mut batch, &mut pool).unwrap();
    assert_eq!(chosen, drawn[1]);
    let mut expected = before.clone();
    expected.extend(drawn);
    assert_eq!(pool, expected);
}

#[test]
fn round_on_a_short_pool_puts_empty_items_back() {
    let mut pool = pool_of(&["a", "b"]);
    let mut batch = draw_batch(false, true, &mut pool);
    assert_eq!(resolve_and_commit("1\n", true, &mut batch, &mut pool), Ok("a".to_string()));
    assert_eq!(pool, pool_of(&["b", "", "", ""]));
}
