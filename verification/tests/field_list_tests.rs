use jpick::fields::parse_field_list;

fn views(v: &[&str]) -> Vec<String> {
    v.iter().map(|s| s.to_string()).collect::<Vec<String>>()
}

#[test]
fn splits_trims_and_drops_empties() {
    let r = parse_field_list(" a , b ,, c ");
    assert_eq!(r, views(&["a", "b", "c"]));
}

#[test]
fn empty_input_yields_empty_list() {
    let r = parse_field_list("");
    assert!(r.is_empty());
}

#[test]
fn whitespace_only_input_yields_empty_list() {
    assert!(parse_field_list("   ").is_empty());
    assert!(parse_field_list(" \t \n ,  , \r ").is_empty());
}

#[test]
fn reparsing_joined_output_is_identity() {
    let first = parse_field_list("  id ,name,  ,tag ");
    let joined = first.join(",");
    let second = parse_field_list(&joined);
    assert_eq!(first, second);
}

#[test]
fn order_is_preserved() {
    let r = parse_field_list("z,a,m");
    assert_eq!(r, views(&["z", "a", "m"]));
}
