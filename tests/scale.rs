use forme::scale::Scale;

#[test]
fn test_try_new() {
    let scale = Scale::try_new(vec![
        2, 2, 1, 2, 2, 2, 1,
    ]);
    assert!(scale.is_ok());
}

#[test]
fn scale_must_span_an_octave() {
    assert!(Scale::try_new(vec![2, 2, 2]).is_err());
    assert!(Scale::try_new(vec![12]).is_ok());
    assert!(Scale::try_new(vec![]).is_err());
    assert!(Scale::try_new(vec![2, 1, 2, 2, 1, 2, 2]).is_ok());
    assert!(Scale::try_new(vec![2, 2, 1, 2, 2, 2, 1, 1]).is_err());
    assert!(Scale::try_new(vec![255, 255, 10]).is_err());
    assert!(Scale::try_new(vec![0, 12, 0]).is_ok());
}
