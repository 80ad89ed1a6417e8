use rusty_mooring::error::SolveError;
use rusty_mooring::table::LineTypeTable;

fn sample() -> LineTypeTable<u32> {
    let mut table = LineTypeTable::new();
    table.insert(String::from("chain"), 1);
    table.insert(String::from("polyester"), 2);
    table.insert(String::from("wire"), 3);
    table
}

#[test]
fn lookup_finds_what_was_inserted() {
    let table = sample();
    assert_eq!(table.lookup("chain"), Ok(&1));
    assert_eq!(table.lookup("polyester"), Ok(&2));
    assert_eq!(table.lookup("wire"), Ok(&3));
}

#[test]
fn lookup_cites_the_unknown_name() {
    let table = sample();
    assert_eq!(
        table.lookup("nylon"),
        Err(SolveError::UnknownLineType { name: String::from("nylon") })
    );
}

#[test]
fn lookup_is_case_sensitive() {
    let table = sample();
    assert_eq!(
        table.lookup("Chain"),
        Err(SolveError::UnknownLineType { name: String::from("Chain") })
    );
}

#[test]
fn an_empty_table_knows_no_name() {
    let table: LineTypeTable<u32> = LineTypeTable::new();
    assert_eq!(
        table.lookup(""),
        Err(SolveError::UnknownLineType { name: String::new() })
    );
}

#[test]
fn a_later_insert_replaces_an_earlier_one() {
    let mut table = sample();
    table.insert(String::from("chain"), 9);
    assert_eq!(table.lookup("chain"), Ok(&9));
    assert_eq!(table.lookup("wire"), Ok(&3));
}

#[test]
fn resolve_follows_the_order_of_the_segments() {
    let table = sample();
    let names = vec![
        String::from("wire"),
        String::from("chain"),
        String::from("wire"),
        String::from("polyester"),
    ];
    assert_eq!(table.resolve(&names), Ok(vec![&3, &1, &3, &2]));
}

#[test]
fn resolve_of_no_names_is_empty() {
    let table = sample();
    assert_eq!(table.resolve(&vec![]), Ok(vec![]));
}

#[test]
fn undefined_line_type_is_cited_by_name() {
    let table = sample();
    let names = vec![String::from("chain"), String::from("hawser"), String::from("wire")];
    assert_eq!(
        table.resolve(&names),
        Err(SolveError::UnknownLineType { name: String::from("hawser") })
    );
}

#[test]
fn resolve_cites_the_first_unknown_name() {
    let table = sample();
    let names = vec![
        String::from("chain"),
        String::from("hawser"),
        String::from("nylon"),
    ];
    assert_eq!(
        table.resolve(&names),
        Err(SolveError::UnknownLineType { name: String::from("hawser") })
    );
}
