use exo_core::column_path::{leaf_column, to_order_by, AbstractOrderBy, ColumnId, ColumnIdPath, ColumnIdPathLink, OrderBy, Ordering};
use exo_core::deploy::{accumulate_env, fly_db_instructions, fly_db_instructions_for, EnvError};
use exo_core::naming::{create_data_type_name, get_parameter_type_name, update_data_type_name};

#[test]
fn input_type_names() {
    assert_eq!(create_data_type_name("Concert", None), "ConcertCreationInput");
    assert_eq!(create_data_type_name("Concert", Some("Venue")), "ConcertCreationInputFromVenue");
    assert_eq!(update_data_type_name("Concert", None), "ConcertUpdateInput");
    assert_eq!(update_data_type_name("Concert", Some("Venue")), "ConcertUpdateInputFromVenue");
}

#[test]
fn order_by_type_names() {
    assert_eq!(get_parameter_type_name("Int", true), "Ordering");
    assert_eq!(get_parameter_type_name("Concert", false), "ConcertOrdering");
}

#[test]
fn env_settings_accumulate() {
    let mut envs = String::new();
    assert_eq!(accumulate_env(&mut envs, "KEY=VALUE"), Ok(()));
    assert_eq!(accumulate_env(&mut envs, "# a comment"), Ok(()));
    assert_eq!(accumulate_env(&mut envs, "OTHER="), Ok(()));
    assert_eq!(envs, "KEY=\"VALUE\"\nOTHER=\"\"\n");
}

#[test]
fn malformed_env_settings_are_refused() {
    let mut envs = String::new();
    assert_eq!(accumulate_env(&mut envs, "KEY"), Err(EnvError::InvalidEnv));
    assert_eq!(accumulate_env(&mut envs, "A=B=C"), Err(EnvError::InvalidEnv));
    assert_eq!(accumulate_env(&mut envs, ""), Err(EnvError::InvalidEnv));
    assert_eq!(envs, "");
    assert_eq!(EnvError::InvalidEnv.message(), "Invalid env specified. Must be in the form of KEY=VALUE");
}

#[test]
fn fly_database_is_named_in_snake_case() {
    let lines = fly_db_instructions("MyConcerts", "concerts.exo");
    assert_eq!(lines.len(), 4);
    assert_eq!(lines[0], "\tfly postgres create --name MyConcerts-db");
    assert_eq!(
        lines[3],
        "\texo schema create ../concerts.exo | psql postgres://my_concerts:<APP_DATABASE_PASSWORD>@localhost:54321/my_concerts"
    );
}

#[test]
fn fly_instructions_for_a_given_database_name() {
    let lines = fly_db_instructions_for("app", "m.exo", "db");
    assert_eq!(lines[1], "\tfly postgres attach --app app app-db");
    assert_eq!(lines[2], "\tIn a separate terminal: fly proxy 54321:5432 -a app-db");
}

fn path(links: &[(usize, usize)]) -> ColumnIdPath {
    ColumnIdPath {
        path: links
            .iter()
            .map(|(t, c)| ColumnIdPathLink { self_column_id: ColumnId::new(*t, *c), linked_column_id: None })
            .collect(),
    }
}

#[test]
fn order_by_uses_leaf_columns() {
    assert_eq!(leaf_column(&path(&[(0, 2), (1, 1)])), ColumnId::new(1, 1));
    let abstract_order = AbstractOrderBy(vec![(path(&[(0, 1)]), Ordering::Asc), (path(&[(0, 2), (1, 1)]), Ordering::Desc)]);
    assert_eq!(
        to_order_by(&abstract_order),
        OrderBy(vec![(ColumnId::new(0, 1), Ordering::Asc), (ColumnId::new(1, 1), Ordering::Desc)])
    );
}
