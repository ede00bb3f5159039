use recorder::error::Error;
use recorder::experiment;
use recorder::options::Options;
use recorder::system::Layout;

#[test]
fn requires_a_configuration_and_a_database() {
    let mut o = Options::new();
    assert_eq!(experiment::config_path(&o), Err(Error::ConfigRequired));
    assert_eq!(experiment::database_path(&o), Err(Error::DatabaseFileRequired));
    o.config = Some("c.xml".to_string());
    o.database = Some("d.db".to_string());
    assert_eq!(experiment::config_path(&o), Ok("c.xml".to_string()));
    assert_eq!(experiment::database_path(&o), Ok("d.db".to_string()));
}

#[test]
fn names_the_columns_of_a_system() {
    let layout = Layout {
        number_of_cores: 2,
        homogeneous_cores: 1,
        number_of_l2s: 2,
        private_l2: 1,
        number_of_l3s: 1,
        homogeneous_l3s: 0,
    };
    assert_eq!(experiment::columns(&layout), vec![
        "core0_dynamic", "core0_leakage", "l30_dynamic", "l30_leakage",
    ]);
    assert_eq!(experiment::generate(&[("x#y", 2)]), vec!["x0y", "x1y"]);
}
