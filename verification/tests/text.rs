use android_meta::text::join_pipe;
use android_meta::text::last_segment;
use android_meta::text::title_case;

#[test]
fn last_segment_takes_the_part_after_the_last_dot() {
    assert_eq!(last_segment("com.example.myapp"), "myapp");
    assert_eq!(last_segment("widgetco"), "widgetco");
    assert_eq!(last_segment("a.b"), "b");
    assert_eq!(last_segment("trailing."), "");
    assert_eq!(last_segment(""), "");
}

#[test]
fn title_case_uppercases_only_the_first_character() {
    assert_eq!(title_case("myapp"), "Myapp");
    assert_eq!(title_case("myApp"), "Myapp");
    assert_eq!(title_case("MYAPP"), "Myapp");
    assert_eq!(title_case("x"), "X");
    assert_eq!(title_case(""), "");
}

#[test]
fn join_pipe_joins_in_order() {
    let two = vec![String::from("a1b2"), String::from("c3d4")];
    assert_eq!(join_pipe(&two), "a1b2|c3d4");
    let one = vec![String::from("x")];
    assert_eq!(join_pipe(&one), "x");
    let none: Vec<String> = Vec::new();
    assert_eq!(join_pipe(&none), "");
}
