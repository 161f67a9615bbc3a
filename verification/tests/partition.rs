use md_slide::partition::partition;

fn is_zero(token: &u32) -> bool {
    *token == 0
}

#[test]
fn two_separators_give_three_slides() {
    let tokens = vec![1u32, 2, 0, 3, 0, 4, 5];
    let slides = partition(&tokens, is_zero);
    assert_eq!(slides.len(), 3);
    assert_eq!(slides[0].to_vec(), vec![1u32, 2]);
    assert_eq!(slides[1].to_vec(), vec![3u32]);
    assert_eq!(slides[2].to_vec(), vec![4u32, 5]);
}

#[test]
fn no_separator_gives_the_whole_input() {
    let tokens = vec![7u32, 8, 9];
    let slides = partition(&tokens, is_zero);
    assert_eq!(slides.len(), 1);
    assert_eq!(slides[0].to_vec(), tokens);
}

#[test]
fn empty_input_gives_one_empty_slide() {
    let tokens: Vec<u32> = Vec::new();
    let slides = partition(&tokens, is_zero);
    assert_eq!(slides.len(), 1);
    assert!(slides[0].is_empty());
}

#[test]
fn adjacent_separators_give_an_empty_slide() {
    let tokens = vec![1u32, 0, 0, 2];
    let slides = partition(&tokens, is_zero);
    assert_eq!(slides.len(), 3);
    assert_eq!(slides[0].to_vec(), vec![1u32]);
    assert!(slides[1].is_empty());
    assert_eq!(slides[2].to_vec(), vec![2u32]);
}

#[test]
fn separators_at_both_ends_give_empty_slides() {
    let tokens = vec![0u32, 5, 0];
    let slides = partition(&tokens, is_zero);
    assert_eq!(slides.len(), 3);
    assert!(slides[0].is_empty());
    assert_eq!(slides[1].to_vec(), vec![5u32]);
    assert!(slides[2].is_empty());
}

#[test]
fn slides_in_order_are_the_content() {
    let tokens = vec![3u32, 0, 1, 4, 0, 0, 1, 5, 9, 0];
    let slides = partition(&tokens, is_zero);
    let separators = tokens.iter().filter(|t| **t == 0).count();
    assert_eq!(slides.len(), separators + 1);
    let mut joined: Vec<u32> = Vec::new();
    for slide in slides.iter() {
        assert!(slide.iter().all(|t| *t != 0));
        joined.extend_from_slice(slide);
    }
    assert_eq!(joined, vec![3u32, 1, 4, 1, 5, 9]);
}
