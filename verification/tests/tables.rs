use tabular::Column;
use tabular::Justification;
use tabular::Table;

#[test]
fn test_basic_table() {
    let mut table = Table::new(vec![
        Column::new("Name", 0, Justification::Left).unwrap(),
        Column::new("Age", 0, Justification::Left).unwrap(),
        Column::new("City", 0, Justification::Left).unwrap(),
    ])
    .unwrap();

    table
        .add_row(vec![
            "John Doe".to_string(),
            "30".to_string(),
            "New York".to_string(),
        ])
        .unwrap();

    table
        .add_row(vec![
            "Jane Smith".to_string(),
            "25".to_string(),
            "Los Angeles".to_string(),
        ])
        .unwrap();

    println!("\n=== Basic Table Test ===\n\n{}\n", table.render());
}

#[test]
fn test_truncation() {
    let mut table = Table::new(vec![
        Column::new("Name", 10, Justification::Left).unwrap(),
        Column::new("Description", 35, Justification::Left).unwrap(),
    ])
    .unwrap();

    table
        .add_row(vec![
            "John Doe".to_string(),
            "A very long description that should be truncated".to_string(),
        ])
        .unwrap();

    println!("\n=== Truncation Test ===\n\n{}\n", table.render());
}

#[test]
fn test_justification() {
    let cols = vec![
        Column::new("ID-R", 0, Justification::Right).unwrap(),
        Column::new("Name-L", 0, Justification::Left).unwrap(),
        Column::new("Balance-R", 0, Justification::Right).unwrap(),
    ];

    let mut table = Table::new(cols).unwrap();

    table
        .add_row(vec![
            "1".to_string(),
            "John Doe".to_string(),
            "100.00".to_string(),
        ])
        .unwrap();

    table
        .add_row(vec![
            "2".to_string(),
            "Jane Smith".to_string(),
            "250.50".to_string(),
        ])
        .unwrap();

    println!("\n=== Justification Test ===\n\n{}\n", table.render());
}

#[test]
fn test_multiline() {
    let mut table = Table::new(vec![
        Column::new("Name", 0, Justification::Left).unwrap(),
        Column::new("Description", 0, Justification::Left).unwrap(),
        Column::new("Status", 0, Justification::Left).unwrap(),
    ])
    .unwrap();

    table
        .add_row(vec![
            "John Doe".to_string(),
            "Software Engineer\nSpecializes in:\n- Rust\n- Go".to_string(),
            "Active".to_string(),
        ])
        .unwrap();

    table
        .add_row(vec![
            "Jane Smith".to_string(),
            "Project Manager".to_string(),
            "On Leave\nReturns next week".to_string(),
        ])
        .unwrap();

    println!("\n=== Multiline Test ===\n\n{}\n", table.render());
}

#[test]
fn test_all() {
    let mut table = Table::new(vec![
        Column::new("Name", 0, Justification::Left).unwrap(),
        Column::new("Description", 35, Justification::Left).unwrap(),
        Column::new("Status", 0, Justification::Left).unwrap(),
        Column::new("Value Right1", 5, Justification::Right).unwrap(),
        Column::new("Value Right2", 0, Justification::Right).unwrap(),
    ])
    .unwrap();

    table
        .add_row(vec![
            "Jane Smith".to_string(),
            "Project Manager".to_string(),
            "On Leave".to_string(),
            "3000.00".to_string(),
            "4000.00".to_string(),
        ])
        .unwrap();

    table
        .add_row(vec![
            "John Doe".to_string(),
            "Software Engineer to long to long to long to long".to_string(),
            "Active".to_string(),
            "1000.00".to_string(),
            "2000.00".to_string(),
        ])
        .unwrap();

    table
        .add_row(vec![
            "Bill Barney".to_string(),
            "Project Manager".to_string(),
            "On Leave".to_string(),
            "3040.00".to_string(),
            "4020.00".to_string(),
        ])
        .unwrap();

    table
        .add_row(vec![
            "Sally Christopher".to_string(),
            "Project Manager\nFormer engineer\nmore lines".to_string(),
            "On Leave".to_string(),
            "3040.00".to_string(),
            "4020.00".to_string(),
        ])
        .unwrap();

    table
        .add_row(vec![
            "Sofia Fraks".to_string(),
            "Director of Engineering ".to_string(),
            "Active".to_string(),
            "9000.00".to_string(),
            "9099.00".to_string(),
        ])
        .unwrap();

    println!("\n=== All Features Test ===\n\n{}\n", table.render());
}
