use volcano::meter;

#[test]
fn plain_meter_draws_pairs() {
    assert_eq!(meter::dots(&[1, 1]), "⣀");
    assert_eq!(meter::dots(&[0, 4, 2]), "⢸⡄");
    assert_eq!(meter::dots(&[4, 4, 0, 0]), "⣿⠀");
    assert_eq!(meter::dots(&[]), "");
}
