use survey::matching::match_planets;

#[test]
fn each_planet_matched_once() {
    // two guesses both close to the single planet: only the first counts
    let close = vec![vec![true], vec![true]];
    assert_eq!(match_planets(&close, 1), vec![true, false]);
}

#[test]
fn greedy_first_free_planet() {
    // guess 0 is close to planets 0 and 1 and takes planet 0;
    // guess 1 is close only to planet 0, which is taken.
    let close = vec![vec![true, true], vec![true, false]];
    assert_eq!(match_planets(&close, 2), vec![true, false]);
    // guess 1 close to planet 1 instead
    let close = vec![vec![true, true], vec![false, true]];
    assert_eq!(match_planets(&close, 2), vec![true, true]);
}

#[test]
fn no_guesses_or_no_planets() {
    assert_eq!(match_planets(&vec![], 3), Vec::<bool>::new());
    assert_eq!(match_planets(&vec![vec![], vec![]], 0), vec![false, false]);
}

#[test]
fn all_close_confirms_first_guesses() {
    let close = vec![vec![true; 2]; 4];
    assert_eq!(match_planets(&close, 2), vec![true, true, false, false]);
}

#[test]
fn wrong_guess_is_not_confirmed() {
    let close = vec![vec![false, false, false], vec![false, false, true]];
    assert_eq!(match_planets(&close, 3), vec![false, true]);
}
