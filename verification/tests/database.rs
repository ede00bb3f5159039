use recorder::arguments::Options as Arguments;
use recorder::database::{self, Retry, Type};
use recorder::error::Error;
use recorder::options::Options;

#[test]
fn compiles_create_table_statements() {
    let s = database::create_table_statement("runs", &[("time", Type::Float), ("id", Type::Integer), ("name", Type::String)]);
    assert_eq!(
        s.unwrap(),
        "CREATE TABLE IF NOT EXISTS `runs` (`time` REAL, `id` INTEGER, `name` TEXT)"
    );
    assert_eq!(database::create_table_statement("runs", &[]), None);
}

#[test]
fn compiles_insert_statements() {
    let s = database::insert_statement("runs", &[("time", Type::Float), ("blob", Type::Binary)]);
    assert_eq!(s.unwrap(), "INSERT INTO `runs` (`time`, `blob`) VALUES (?, ?)");
    assert_eq!(database::insert_statement("runs", &[]), None);
}

#[test]
fn writes_the_sql_of_the_records() {
    let columns = vec!["core0".to_string(), "l30".to_string()];
    assert_eq!(
        database::prepare_sql("bullet", &columns),
        "\nCREATE TABLE IF NOT EXISTS bullet (id INTEGER PRIMARY KEY AUTOINCREMENT, time INTEGER, core0 REAL, l30 REAL);\nCREATE INDEX IF NOT EXISTS bullet_time_index ON bullet (time);\n        "
    );
    assert_eq!(
        database::statement_sql("bullet", &columns),
        "\nINSERT INTO bullet (time, core0, l30) VALUES (?, ?, ?);\n        "
    );
    assert_eq!(
        database::statement_sql("t", &[]),
        "\nINSERT INTO t (time) VALUES (?);\n        "
    );
}

#[test]
fn requires_a_table_and_a_database() {
    let a = Arguments::parse(vec!["--table".to_string(), "t".to_string(), "--database".to_string(), "d".to_string()]).unwrap();
    assert_eq!(database::table_name(&a), Ok("t".to_string()));
    assert_eq!(database::database_path(&a), Ok("d".to_string()));
    let a = Arguments::parse(vec![]).unwrap();
    assert_eq!(database::table_name(&a), Err(Error::TableRequired));
    assert_eq!(database::database_path(&a), Err(Error::DatabaseRequired));
}

#[test]
fn requires_the_database_file() {
    let mut o = Options::new();
    assert_eq!(database::database_file(&o), Err(Error::DatabaseFileRequired));
    o.database = Some("x.db".to_string());
    assert_eq!(database::database_file(&o), Ok("x.db".to_string()));
}

#[test]
fn gives_up_a_write_after_ten_failures() {
    let mut retry = Retry::new();
    for _ in 0..9 {
        assert_eq!(retry.failed(), Ok(()));
    }
    assert_eq!(retry.failed(), Err(Error::WriteFailed));
}

#[test]
fn binds_one_value_more_than_there_are_columns() {
    for n in 0..4 {
        let columns: Vec<String> = (0..n).map(|i| format!("c{}", i)).collect();
        let sql = database::statement_sql("t", &columns);
        assert_eq!(sql.matches('?').count(), n + 1);
    }
}

#[test]
fn checks_the_width_of_a_row() {
    assert_eq!(database::check_row(3, 3), Ok(()));
    assert_eq!(database::check_row(3, 2), Err(Error::RowMismatch));
    assert_eq!(Error::RowMismatch.message(), "encoundered a dimensionality mistmatch");
    assert_eq!(Error::RecordFailed.message(), "cannot write data into the database");
}

#[test]
fn defaults_the_table_and_file_of_the_area_command() {
    let a = Arguments::parse(vec![]).unwrap();
    assert_eq!(database::table_or_default(&a), "bullet");
    assert_eq!(database::database_or_default(&a), "bullet.sqlite3");
    let a = Arguments::parse(vec!["--table".to_string(), "t".to_string(), "--database".to_string(), "d".to_string()]).unwrap();
    assert_eq!(database::table_or_default(&a), "t");
    assert_eq!(database::database_or_default(&a), "d");
}
