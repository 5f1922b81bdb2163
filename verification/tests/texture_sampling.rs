use ray_casting::texture::Texture;

#[test]
fn sample_reads_row_major() {
    let t = Texture::new(2, 2, vec![10, 20, 30, 40]);
    assert_eq!(t.sample(0, 0), 10);
    assert_eq!(t.sample(1, 0), 20);
    assert_eq!(t.sample(0, 1), 30);
    assert_eq!(t.sample(1, 1), 40);
}

#[test]
fn sample_clamps_to_the_last_column_and_row() {
    let t = Texture::new(2, 2, vec![10, 20, 30, 40]);
    assert_eq!(t.sample(9, 0), 20);
    assert_eq!(t.sample(0, 9), 30);
    assert_eq!(t.sample(9, 9), 40);
}
