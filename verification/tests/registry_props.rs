use livestock_registry::livestock::{HealthStatus, LivestockManager};
use livestock_registry::stats::stat_value;

#[test]
fn test_sequential_ids_no_gaps() {
    let mut m = LivestockManager::new();
    for expected in 0u64..5 {
        let id = m.create_animal(1, "Angus".to_string(), 10);
        assert_eq!(id, expected);
    }
}

#[test]
fn test_breed_missing_parent_consumes_no_id() {
    let mut m = LivestockManager::new();
    let p = m.create_animal(2, "Angus".to_string(), 15);
    // One parent absent: nothing is created and no id is consumed.
    assert!(m.breed_animals(p, 99, "Angus".to_string()).is_none());
    assert!(m.breed_animals(99, p, "Angus".to_string()).is_none());
    assert_eq!(m.get_all_animals().len(), 1);
    let next = m.create_animal(1, "Angus".to_string(), 10);
    assert_eq!(next, 1);
}

#[test]
fn test_self_breeding_is_permitted() {
    let mut m = LivestockManager::new();
    let p = m.create_animal(4, "Angus".to_string(), 15);
    let offspring_id = m.breed_animals(p, p, "Angus".to_string()).unwrap();
    let offspring = m.get_animal(offspring_id).unwrap();
    assert_eq!(offspring.age, 0);
    assert_eq!(offspring.height, 0);
    let parents = offspring.parent_ids.unwrap();
    assert_eq!(parents.parent1_id, p);
    assert_eq!(parents.parent2_id, p);
}

#[test]
fn test_update_absent_id_no_alert() {
    let mut m = LivestockManager::new();
    assert!(!m.update_health_status(7, HealthStatus::Sick));
    assert!(m.get_health_alerts().is_empty());
}

#[test]
fn test_repeated_updates_append_repeated_alerts() {
    let mut m = LivestockManager::new();
    let id = m.create_animal(2, "Angus".to_string(), 15);
    assert!(m.update_health_status(id, HealthStatus::Critical));
    assert!(m.update_health_status(id, HealthStatus::Critical));
    let alerts = m.get_health_alerts();
    assert_eq!(alerts.len(), 2);
    assert_eq!(alerts[0].animal_id, id);
    assert_eq!(alerts[1].animal_id, id);
    assert_eq!(alerts[0].status, HealthStatus::Critical);
    assert_eq!(alerts[1].status, HealthStatus::Critical);
}

#[test]
fn test_update_to_healthy_raises_no_alert() {
    let mut m = LivestockManager::new();
    let id = m.create_animal(2, "Angus".to_string(), 15);
    assert!(m.update_health_status(id, HealthStatus::Healthy));
    assert!(m.get_health_alerts().is_empty());
    let animal = m.get_animal(id).unwrap();
    assert!(animal.updated_at.is_some());
    assert_eq!(animal.healthrecords, "Healthy");
}

#[test]
fn test_health_summary_mirrors_status() {
    let mut m = LivestockManager::new();
    let id = m.create_animal(2, "Angus".to_string(), 15);
    assert_eq!(m.get_animal(id).unwrap().healthrecords, "Healthy");
    m.update_health_status(id, HealthStatus::Recovering);
    assert_eq!(m.get_animal(id).unwrap().healthrecords, "Recovering");
}

#[test]
fn test_delete_purges_only_own_alerts() {
    let mut m = LivestockManager::new();
    let a = m.create_animal(2, "Angus".to_string(), 15);
    let b = m.create_animal(3, "Holstein".to_string(), 16);
    m.update_health_status(a, HealthStatus::Sick);
    m.update_health_status(b, HealthStatus::Critical);
    m.update_health_status(a, HealthStatus::Sick);
    assert!(m.delete_animal(a));
    let alerts = m.get_health_alerts();
    assert_eq!(alerts.len(), 1);
    assert_eq!(alerts[0].animal_id, b);
    // A second deletion of the same id reports false.
    assert!(!m.delete_animal(a));
    assert!(m.get_animal(a).is_none());
}

#[test]
fn test_averages_on_empty_registry_are_zero() {
    let m = LivestockManager::new();
    assert_eq!(m.get_average_age(), 0);
    assert_eq!(m.get_average_height(), 0);
}

#[test]
fn test_average_age_truncates() {
    let mut m = LivestockManager::new();
    m.create_animal(2, "Angus".to_string(), 10);
    m.create_animal(3, "Angus".to_string(), 10);
    // (2 + 3) / 2 == 2 in integer arithmetic.
    assert_eq!(m.get_average_age(), 2);
}

#[test]
fn test_medication_ids_count_per_animal() {
    let mut m = LivestockManager::new();
    let a = m.create_animal(2, "Angus".to_string(), 15);
    let b = m.create_animal(3, "Holstein".to_string(), 16);
    assert!(m.add_medication(a, "Antibiotics".to_string(), "10mg".to_string()));
    assert!(m.add_medication(b, "Vitamins".to_string(), "5mg".to_string()));
    assert!(m.add_medication(a, "Painkiller".to_string(), "2mg".to_string()));
    assert!(m.add_medication(a, "Salve".to_string(), "1g".to_string()));
    let meds_a = m.get_animal(a).unwrap().medical_records;
    let meds_b = m.get_animal(b).unwrap().medical_records;
    assert_eq!(meds_a.len(), 3);
    assert_eq!(meds_a[0].id, 1);
    assert_eq!(meds_a[1].id, 2);
    assert_eq!(meds_a[2].id, 3);
    assert_eq!(meds_b.len(), 1);
    assert_eq!(meds_b[0].id, 1);
}

#[test]
fn test_medication_absent_animal() {
    let mut m = LivestockManager::new();
    assert!(!m.add_medication(3, "Antibiotics".to_string(), "10mg".to_string()));
}

#[test]
fn test_medication_window_is_one_day() {
    let mut m = LivestockManager::new();
    let a = m.create_animal(2, "Angus".to_string(), 15);
    assert!(m.add_medication(a, "Antibiotics".to_string(), "10mg".to_string()));
    let med = &m.get_animal(a).unwrap().medical_records[0];
    assert_eq!(med.end_date, med.start_date + 86_400_000_000_000);
}

#[test]
fn test_breed_match_ignores_case() {
    let mut m = LivestockManager::new();
    let a = m.create_animal(2, "Angus".to_string(), 15);
    m.create_animal(3, "Holstein".to_string(), 16);
    // The stored form and the query are both folded to lowercase, so a
    // query in any case matches the same records.
    let lower = m.get_animal_per_breed("angus");
    let upper = m.get_animal_per_breed("ANGUS");
    let mixed = m.get_animal_per_breed("Angus");
    assert_eq!(lower.len(), 1);
    assert_eq!(upper.len(), 1);
    assert_eq!(mixed.len(), 1);
    assert_eq!(lower[0].id, a);
    assert_eq!(upper[0].id, a);
    assert_eq!(mixed[0].id, a);
}

#[test]
fn test_statistics_omits_absent_categories() {
    let mut m = LivestockManager::new();
    m.create_animal(2, "Angus".to_string(), 15);
    let stats = m.get_statistics();
    assert_eq!(stat_value(&stats, "total_animals"), Some(1));
    assert_eq!(stat_value(&stats, "health_healthy"), Some(1));
    assert_eq!(stat_value(&stats, "health_sick"), None);
    assert_eq!(stat_value(&stats, "health_critical"), None);
    assert_eq!(stat_value(&stats, "breed_holstein"), None);
}

#[test]
fn test_statistics_groups_breeds_case_insensitively() {
    let mut m = LivestockManager::new();
    m.create_animal(2, "Angus".to_string(), 15);
    m.create_animal(3, "ANGUS".to_string(), 16);
    m.create_animal(4, "angus".to_string(), 14);
    let stats = m.get_statistics();
    assert_eq!(stat_value(&stats, "total_animals"), Some(3));
    assert_eq!(stat_value(&stats, "breed_angus"), Some(3));
}

#[test]
fn test_pedigree_of_created_animal_is_none() {
    let mut m = LivestockManager::new();
    let a = m.create_animal(2, "Angus".to_string(), 15);
    assert!(m.get_pedigree(a).is_none());
    assert!(m.get_pedigree(77).is_none());
}

#[test]
fn test_deleted_id_is_never_reused() {
    let mut m = LivestockManager::new();
    let a = m.create_animal(2, "Angus".to_string(), 15);
    assert!(m.delete_animal(a));
    let b = m.create_animal(3, "Angus".to_string(), 16);
    assert_ne!(a, b);
    assert_eq!(b, 1);
}

#[test]
fn test_default_registry_is_empty() {
    let m = LivestockManager::default();
    assert!(m.get_all_animals().is_empty());
    assert!(m.get_health_alerts().is_empty());
    let first = LivestockManager::new().create_animal(1, "Angus".to_string(), 10);
    assert_eq!(first, 0);
}
