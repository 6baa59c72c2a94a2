use pir::client::{check_retrieved, client_decrypt, Client, SchemeParameters};
use pir::database::{random_scalars, Database};
use pir::error::PirError;
use pir::matrix;
use pir::selection::build_selection;
use pir::trivial;

fn parameters() -> SchemeParameters {
    SchemeParameters::new(2048, &vec![0x3fffffff000001], 1 << 10).unwrap()
}

fn scalars(count: u64) -> Vec<u64> {
    (0..count).map(|k| 1 + (k * 37 + 11) % 1023).collect()
}

#[test]
fn trivial_retrieves_the_scalar_at_the_index() {
    let parameters = parameters();
    let mut rng = rand::rng();
    let client = Client::generate(&parameters, &mut rng);
    let mut values = scalars(100);
    values[42] = 7;
    let database = Database::new(values.clone(), &parameters).unwrap();
    assert_eq!(trivial::retrieve(&database, 42, &client, &mut rng), Ok(7));
    assert_eq!(trivial::retrieve(&database, 0, &client, &mut rng), Ok(values[0]));
    assert_eq!(trivial::retrieve(&database, 99, &client, &mut rng), Ok(values[99]));
}

#[test]
fn matrix_retrieves_the_scalar_at_the_index() {
    let parameters = parameters();
    let mut rng = rand::rng();
    let client = Client::generate(&parameters, &mut rng);
    let mut values = scalars(100);
    values[42] = 7;
    let database = Database::new(values.clone(), &parameters).unwrap();
    assert_eq!(matrix::retrieve(&database, 42, &client, &mut rng), Ok(7));
    assert_eq!(matrix::retrieve(&database, 0, &client, &mut rng), Ok(values[0]));
    assert_eq!(matrix::retrieve(&database, 99, &client, &mut rng), Ok(values[99]));
}

#[test]
fn matrix_retrieves_every_cell_of_a_small_grid() {
    let parameters = parameters();
    let mut rng = rand::rng();
    let client = Client::generate(&parameters, &mut rng);
    let values = scalars(16);
    let database = Database::new(values.clone(), &parameters).unwrap();
    for index in 0..16 {
        assert_eq!(matrix::retrieve(&database, index, &client, &mut rng), Ok(values[index]));
    }
}

#[test]
fn index_past_the_end_is_refused() {
    let parameters = parameters();
    let mut rng = rand::rng();
    let client = Client::generate(&parameters, &mut rng);
    let database = Database::new(scalars(100), &parameters).unwrap();
    assert_eq!(trivial::retrieve(&database, 100, &client, &mut rng), Err(PirError::Index));
    assert_eq!(matrix::retrieve(&database, 100, &client, &mut rng), Err(PirError::Index));
    assert!(matches!(build_selection(&client, 100, 100, &mut rng), Err(PirError::Index)));
}

#[test]
fn matrix_refuses_a_length_that_is_no_square() {
    let parameters = parameters();
    let mut rng = rand::rng();
    let client = Client::generate(&parameters, &mut rng);
    let database = Database::new(scalars(99), &parameters).unwrap();
    assert_eq!(matrix::retrieve(&database, 42, &client, &mut rng), Err(PirError::Configuration));
    assert_eq!(matrix::retrieve(&database, 99, &client, &mut rng), Err(PirError::Configuration));
    assert!(matches!(
        matrix::client_populate(&client, 99, 42, &mut rng),
        Err(PirError::Configuration)
    ));
    assert!(matrix::client_populate(&client, 100, 42, &mut rng).is_ok());
    assert_eq!(trivial::retrieve(&database, 42, &client, &mut rng), Ok(scalars(99)[42]));
}

#[test]
fn selection_vector_holds_one_at_the_target_only() {
    let parameters = parameters();
    let mut rng = rand::rng();
    let client = Client::generate(&parameters, &mut rng);
    for target in 0..5 {
        let selection = build_selection(&client, 5, target, &mut rng).unwrap();
        assert_eq!(selection.len(), 5);
        for position in 0..5 {
            let mut unit = vec![0u64; 5];
            unit[position] = 1;
            let probe = Database::new(unit, &parameters).unwrap();
            let reply = trivial::server_compute(&probe, &selection).unwrap();
            let held = client_decrypt(&reply, &client).unwrap();
            assert_eq!(held, if position == target { 1 } else { 0 });
        }
    }
}

#[test]
fn upload_counts() {
    let parameters = parameters();
    let mut rng = rand::rng();
    let client = Client::generate(&parameters, &mut rng);
    let selection = build_selection(&client, 100, 42, &mut rng).unwrap();
    assert_eq!(selection.len(), 100);
    let query = matrix::client_populate(&client, 100, 42, &mut rng).unwrap();
    assert_eq!(query.upload_count(), 20);
    assert!(query.upload_count() < selection.len());
}

#[test]
fn server_stages_agree_with_the_whole_step() {
    let parameters = parameters();
    let mut rng = rand::rng();
    let client = Client::generate(&parameters, &mut rng);
    let values = scalars(9);
    let database = Database::new(values.clone(), &parameters).unwrap();
    let query = matrix::client_populate(&client, 9, 5, &mut rng).unwrap();
    let intermediate = matrix::vector_dot_cp(&database, &query).unwrap();
    let staged = matrix::vector_dot_cc(&intermediate, &query).unwrap();
    let whole = matrix::server_compute(&database, &query).unwrap();
    assert_eq!(client_decrypt(&staged, &client), Ok(values[5]));
    assert_eq!(client_decrypt(&whole, &client), Ok(values[5]));
}

#[test]
fn server_refuses_a_query_for_another_grid() {
    let parameters = parameters();
    let mut rng = rand::rng();
    let client = Client::generate(&parameters, &mut rng);
    let database = Database::new(scalars(16), &parameters).unwrap();
    let query = matrix::client_populate(&client, 9, 5, &mut rng).unwrap();
    assert!(matches!(matrix::vector_dot_cp(&database, &query), Err(PirError::Configuration)));
    assert!(matches!(matrix::server_compute(&database, &query), Err(PirError::Configuration)));
}

#[test]
fn retrieved_scalar_is_held_against_the_database() {
    assert_eq!(check_retrieved(7, 7), Ok(7));
    assert_eq!(check_retrieved(7, 8), Err(PirError::InternalConsistency));
}

#[test]
fn database_keeps_its_scalars() {
    let parameters = parameters();
    let values = scalars(10);
    let database = Database::new(values.clone(), &parameters).unwrap();
    assert_eq!(database.len(), 10);
    assert_eq!(database.get(3), Ok(values[3]));
    assert_eq!(database.get(10), Err(PirError::Index));
}

#[test]
fn empty_database_has_no_index() {
    let parameters = parameters();
    let mut rng = rand::rng();
    let client = Client::generate(&parameters, &mut rng);
    let database = Database::new(Vec::new(), &parameters).unwrap();
    assert_eq!(trivial::retrieve(&database, 0, &client, &mut rng), Err(PirError::Index));
    assert_eq!(matrix::retrieve(&database, 0, &client, &mut rng), Err(PirError::Index));
}

#[test]
fn parameters_are_checked() {
    let good = SchemeParameters::new(2048, &vec![0x3fffffff000001], 1 << 10).unwrap();
    assert_eq!(good.plaintext_modulus(), 1024);
    assert_eq!(good.share().plaintext_modulus(), 1024);
    assert!(matches!(
        SchemeParameters::new(2048, &vec![0x3fffffff000001], 0x3fffffff000001),
        Err(PirError::Configuration)
    ));
    assert!(matches!(
        SchemeParameters::new(131072, &vec![0x3fffffff000001], 1 << 10),
        Err(PirError::Configuration)
    ));
    assert!(matches!(
        SchemeParameters::new(100, &vec![0x3fffffff000001], 1 << 10),
        Err(PirError::Configuration)
    ));
    assert!(matches!(
        SchemeParameters::new(2048, &vec![0x3fffffff000001], 1),
        Err(PirError::Configuration)
    ));
    assert!(matches!(SchemeParameters::new(2048, &Vec::new(), 1 << 10), Err(PirError::Configuration)));
    assert!(matches!(
        SchemeParameters::new(2048, &vec![0x3fffffff000001, 1 << 9], 1 << 10),
        Err(PirError::Configuration)
    ));
    assert!(matches!(
        SchemeParameters::new(2048, &vec![0x3fffffff000000], 1 << 10),
        Err(PirError::Configuration)
    ));
    assert!(SchemeParameters::new(8, &vec![0x3fffffff000001], 2).is_ok());
    assert!(SchemeParameters::new(65536, &vec![0x3fffffff000001], 1 << 10).is_ok());
}

#[test]
fn random_scalars_stay_below_the_modulus() {
    let mut rng = rand::rng();
    let values = random_scalars(200, 1024, &mut rng).unwrap();
    assert_eq!(values.len(), 200);
    assert!(values.iter().all(|v| 1 <= *v && *v < 1024));
    let ones = random_scalars(20, 2, &mut rng).unwrap();
    assert_eq!(ones, vec![1u64; 20]);
    assert_eq!(random_scalars(3, 1, &mut rng), Err(PirError::Configuration));
    assert_eq!(random_scalars(3, 0, &mut rng), Err(PirError::Configuration));
    assert_eq!(random_scalars(0, 1024, &mut rng), Ok(Vec::new()));
}

#[test]
fn random_database_is_retrieved_from() {
    let parameters = parameters();
    let mut rng = rand::rng();
    let client = Client::generate(&parameters, &mut rng);
    let values = random_scalars(100, parameters.plaintext_modulus(), &mut rng).unwrap();
    let database = Database::new(values.clone(), &parameters).unwrap();
    for index in [0usize, 42, 99] {
        let plainly = trivial::retrieve(&database, index, &client, &mut rng).unwrap();
        let by_grid = matrix::retrieve(&database, index, &client, &mut rng).unwrap();
        assert_eq!(check_retrieved(database.get(index).unwrap(), plainly), Ok(values[index]));
        assert_eq!(check_retrieved(database.get(index).unwrap(), by_grid), Ok(values[index]));
    }
}

#[test]
fn smallest_databases() {
    let parameters = parameters();
    let mut rng = rand::rng();
    let client = Client::generate(&parameters, &mut rng);
    let single = Database::new(vec![5], &parameters).unwrap();
    assert_eq!(trivial::retrieve(&single, 0, &client, &mut rng), Ok(5));
    assert_eq!(matrix::retrieve(&single, 0, &client, &mut rng), Ok(5));
    assert_eq!(matrix::retrieve(&single, 1, &client, &mut rng), Err(PirError::Index));
    let four = Database::new(vec![9, 8, 7, 1023], &parameters).unwrap();
    for index in 0..4 {
        assert_eq!(trivial::retrieve(&four, index, &client, &mut rng), four.get(index));
        assert_eq!(matrix::retrieve(&four, index, &client, &mut rng), four.get(index));
    }
}

#[test]
fn scalar_at_or_beyond_the_modulus_is_refused() {
    let parameters = parameters();
    assert!(Database::new(vec![1023], &parameters).is_ok());
    assert!(Database::new(vec![0, 1, 1023], &parameters).is_ok());
    assert!(matches!(Database::new(vec![1024], &parameters), Err(PirError::Configuration)));
    assert!(matches!(Database::new(vec![5, 1025, 5], &parameters), Err(PirError::Configuration)));
    assert!(matches!(
        Database::new(vec![4 * 0x3fffffff000001], &parameters),
        Err(PirError::Configuration)
    ));
    assert!(matches!(Database::new(vec![u64::MAX], &parameters), Err(PirError::Configuration)));
    assert!(matches!(Database::new(vec![7, u64::MAX - 1], &parameters), Err(PirError::Configuration)));
}

#[test]
fn every_request_in_range_is_served() {
    let parameters = parameters();
    let mut rng = rand::rng();
    let client = Client::generate(&parameters, &mut rng);
    for target in 0..4 {
        assert!(build_selection(&client, 4, target, &mut rng).is_ok());
    }
    for index in 0..9 {
        assert!(matrix::client_populate(&client, 9, index, &mut rng).is_ok());
    }
    assert!(matches!(matrix::client_populate(&client, 9, 9, &mut rng), Err(PirError::Index)));
    assert!(matches!(matrix::client_populate(&client, 8, 9, &mut rng), Err(PirError::Configuration)));
    assert!(matches!(build_selection(&client, 0, 0, &mut rng), Err(PirError::Index)));
}

#[test]
fn retrieved_scalars_are_below_the_modulus() {
    let small = SchemeParameters::new(2048, &vec![0x3fffffff000001], 4).unwrap();
    let mut rng = rand::rng();
    let client = Client::generate(&small, &mut rng);
    let database = Database::new(vec![3, 2, 1, 0], &small).unwrap();
    for index in 0..4 {
        let plainly = trivial::retrieve(&database, index, &client, &mut rng).unwrap();
        let by_grid = matrix::retrieve(&database, index, &client, &mut rng).unwrap();
        assert!(plainly < 4 && by_grid < 4);
        assert_eq!(plainly, 3 - index as u64);
        assert_eq!(by_grid, 3 - index as u64);
    }
    assert!(matches!(Database::new(vec![4], &small), Err(PirError::Configuration)));
}
