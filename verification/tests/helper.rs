use pacman::helper::get_sub_rect;

#[test]
fn get_sub_rect_works() {
    let data = vec![
        0, 0, 0, 0, 0, 0, 0, 0,
        0, 0, 0, 0, 0, 0, 0, 0,
        0, 0, 1, 1, 0, 0, 0, 0,
        0, 0, 1, 1, 0, 0, 0, 0,
        0, 0, 0, 0, 2, 2, 2, 2,
        0, 0, 0, 0, 2, 2, 2, 2,
    ];

    let sub_rect_0 = get_sub_rect(data.as_slice(), 8, 1, 1, 2, 2);
    let sub_rect_1 = get_sub_rect(data.as_slice(), 8, 1, 2, 4, 2);

    assert_eq!(sub_rect_0, vec![1; 4]);
    assert_eq!(sub_rect_1, vec![2; 8]);
}

#[test]
fn get_sub_rect_reads_rows_in_order() {
    let data: Vec<u8> = (0..24).collect();
    assert_eq!(get_sub_rect(data.as_slice(), 6, 1, 1, 3, 2), vec![15, 16, 17, 21, 22, 23]);
    assert_eq!(get_sub_rect(data.as_slice(), 6, 0, 0, 2, 2), vec![0, 1, 6, 7]);
}

#[test]
fn get_sub_rect_of_empty_rectangle_is_empty() {
    let data: Vec<u8> = vec![1, 2, 3];
    assert_eq!(get_sub_rect(data.as_slice(), 3, 0, 5, 2, 0), Vec::<u8>::new());
}
