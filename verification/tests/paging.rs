use whyrc::paging::get_page_buffer;

#[test]
fn test_source_smaller_than_page_size() {
    let page_size = 100;
    let page_number = 0;

    let test_string = String::from("test");

    let room_names = vec![&test_string, &test_string];

    let actual: Vec<String> = get_page_buffer(&room_names, page_number, page_size);

    assert_eq!(actual.len(), room_names.len());
    assert_eq!(
        actual,
        room_names
            .iter()
            .map(|string_ref| { String::from(*string_ref) })
            .collect::<Vec<String>>()
    );
}

#[test]
fn test_source_larger_than_page_size() {
    let page_size = 2;
    let page_number = 0;

    let test_string = String::from("test");

    let room_names = vec![&test_string, &test_string, &test_string];

    let actual: Vec<String> = get_page_buffer(&room_names, page_number, page_size);

    assert_eq!(actual.len(), page_size);
}

#[test]
fn test_page_number_plus_size_greater_than_source() {
    let page_size = 2;
    let page_number = 1;

    let test_string = String::from("test");

    let room_names = vec![&test_string, &test_string, &test_string];

    let actual: Vec<String> = get_page_buffer(&room_names, page_number, page_size);

    // only get one element, because page 0 includes first two elements
    assert_eq!(actual.len(), 1);
}

#[test]
fn test_invalid_page_number() {
    let page_size = 2;
    let page_number = 10;

    let test_string = String::from("test");

    let room_names = vec![&test_string, &test_string, &test_string];

    let actual: Vec<String> = get_page_buffer(&room_names, page_number, page_size);

    // should get an empty vector, because there is nothing at page 10
    assert_eq!(actual.len(), 0);
}

fn numbers(n: u32) -> Vec<u32> {
    (0..n).collect()
}

#[test]
fn page_has_the_items_of_its_range_in_order() {
    let items = numbers(10);
    let refs: Vec<&u32> = items.iter().collect();
    assert_eq!(get_page_buffer(&refs, 0, 4), vec![0, 1, 2, 3]);
    assert_eq!(get_page_buffer(&refs, 1, 4), vec![4, 5, 6, 7]);
    assert_eq!(get_page_buffer(&refs, 2, 4), vec![8, 9]);
    assert_eq!(get_page_buffer(&refs, 3, 4), Vec::<u32>::new());
}

#[test]
fn page_starting_at_the_end_is_empty() {
    let items = numbers(8);
    let refs: Vec<&u32> = items.iter().collect();
    assert_eq!(get_page_buffer(&refs, 2, 4), Vec::<u32>::new());
    assert_eq!(get_page_buffer(&refs, 1, 8), Vec::<u32>::new());
}

#[test]
fn page_of_size_zero_is_empty() {
    let items = numbers(3);
    let refs: Vec<&u32> = items.iter().collect();
    assert_eq!(get_page_buffer(&refs, 0, 0), Vec::<u32>::new());
    assert_eq!(get_page_buffer(&refs, 5, 0), Vec::<u32>::new());
}

#[test]
fn page_of_an_empty_list_is_empty() {
    let refs: Vec<&u32> = Vec::new();
    assert_eq!(get_page_buffer(&refs, 0, 5), Vec::<u32>::new());
    assert_eq!(get_page_buffer(&refs, 1, 5), Vec::<u32>::new());
}

#[test]
fn offset_beyond_the_machine_word_gives_an_empty_page() {
    let items = numbers(3);
    let refs: Vec<&u32> = items.iter().collect();
    assert_eq!(get_page_buffer(&refs, usize::MAX, 2), Vec::<u32>::new());
    assert_eq!(get_page_buffer(&refs, usize::MAX, usize::MAX), Vec::<u32>::new());
    assert_eq!(get_page_buffer(&refs, 0, usize::MAX), vec![0, 1, 2]);
}

#[test]
fn page_lengths_follow_the_formula() {
    for n in 0u32..12 {
        let items = numbers(n);
        let refs: Vec<&u32> = items.iter().collect();
        for page_size in 0usize..6 {
            for page in 0usize..6 {
                let expected = page_size.min((n as usize).saturating_sub(page * page_size));
                assert_eq!(get_page_buffer(&refs, page, page_size).len(), expected);
            }
        }
    }
}

#[test]
fn pages_laid_end_to_end_give_the_list_back() {
    for n in 0u32..15 {
        let items = numbers(n);
        let refs: Vec<&u32> = items.iter().collect();
        for page_size in 1usize..7 {
            let count = (n as usize + page_size - 1) / page_size;
            let mut joined: Vec<u32> = Vec::new();
            for page in 0..count {
                joined.extend(get_page_buffer(&refs, page, page_size));
            }
            assert_eq!(joined, items);
        }
    }
}

#[test]
fn input_is_left_as_it_was() {
    let items = vec![String::from("b"), String::from("a"), String::from("c")];
    let refs: Vec<&String> = items.iter().collect();
    let page: Vec<String> = get_page_buffer(&refs, 0, 2);
    assert_eq!(page, vec![String::from("b"), String::from("a")]);
    assert_eq!(refs, vec![&items[0], &items[1], &items[2]]);
}
