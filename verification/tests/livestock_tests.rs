use livestock_registry::livestock::{HealthStatus, LivestockManager};
use livestock_registry::stats::stat_value;

#[test]
fn test_create_animal() {
    let mut contract = LivestockManager::new();

    // Test creating an animal
    let animal_id = contract.create_animal(2, "Angus".to_string(), 15);
    assert_eq!(animal_id, 0); // First animal should have ID 0

    // Verify animal details
    let animal = contract.get_animal(animal_id).unwrap();
    assert_eq!(animal.age, 2);
    assert_eq!(animal.breed, "Angus");
    assert_eq!(animal.height, 15);
    assert_eq!(animal.healthstatus, HealthStatus::Healthy);
}

#[test]
fn test_breeding() {
    let mut contract = LivestockManager::new();

    // Create parent animals
    let parent1_id = contract.create_animal(3, "Angus".to_string(), 16);
    let parent2_id = contract.create_animal(2, "Angus".to_string(), 15);

    // Test breeding
    let offspring_id = contract.breed_animals(parent1_id, parent2_id, "Angus".to_string());
    assert!(offspring_id.is_some());

    // Verify offspring details
    let offspring = contract.get_animal(offspring_id.unwrap()).unwrap();
    assert_eq!(offspring.age, 0);
    assert_eq!(offspring.breed, "Angus");
    assert!(offspring.parent_ids.is_some());
    let parents = offspring.parent_ids.unwrap();
    assert_eq!(parents.parent1_id, parent1_id);
    assert_eq!(parents.parent2_id, parent2_id);
}

#[test]
fn test_health_management() {
    let mut contract = LivestockManager::new();

    // Create an animal
    let animal_id = contract.create_animal(2, "Angus".to_string(), 15);

    // Test health status update
    assert!(contract.update_health_status(animal_id, HealthStatus::Sick));

    // Verify health status
    let animal = contract.get_animal(animal_id).unwrap();
    assert_eq!(animal.healthstatus, HealthStatus::Sick);

    // Check health alerts
    let alerts = contract.get_health_alerts();
    assert_eq!(alerts.len(), 1);
    assert_eq!(alerts[0].animal_id, animal_id);
    assert_eq!(alerts[0].status, HealthStatus::Sick);
}

#[test]
fn test_get_health_alerts() {
    let mut contract = LivestockManager::new();

    // Create an animal
    let animal_id = contract.create_animal(2, "Angus".to_string(), 15);

    // Update health status to trigger an alert
    contract.update_health_status(animal_id, HealthStatus::Sick);

    // Retrieve health alerts
    let alerts = contract.get_health_alerts();

    // Verify the alert
    assert_eq!(alerts.len(), 1);
    assert_eq!(alerts[0].animal_id, animal_id);
    assert_eq!(alerts[0].status, HealthStatus::Sick);
}

#[test]
fn test_medication() {
    let mut contract = LivestockManager::new();

    // Create an animal
    let animal_id = contract.create_animal(2, "Angus".to_string(), 15);

    // Add medication
    assert!(contract.add_medication(
        animal_id,
        "Antibiotics".to_string(),
        "10mg daily".to_string()
    ));

    // Verify medication records
    let animal = contract.get_animal(animal_id).unwrap();
    assert_eq!(animal.medical_records.len(), 1);
    assert_eq!(animal.medical_records[0].name, "Antibiotics");
    assert_eq!(animal.medical_records[0].dosage, "10mg daily");
}

#[test]
fn test_statistics() {
    let mut contract = LivestockManager::new();

    // Create multiple animals
    contract.create_animal(2, "Angus".to_string(), 15);
    contract.create_animal(3, "Holstein".to_string(), 16);
    contract.create_animal(2, "Angus".to_string(), 14);

    // Update some health statuses
    contract.update_health_status(1, HealthStatus::Sick);

    // Get statistics
    let stats = contract.get_statistics();

    // Verify statistics
    assert_eq!(stat_value(&stats, "total_animals"), Some(3));
    assert_eq!(stat_value(&stats, "breed_angus"), Some(2));
    assert_eq!(stat_value(&stats, "breed_holstein"), Some(1));
    assert_eq!(stat_value(&stats, "health_sick"), Some(1));
    assert_eq!(stat_value(&stats, "health_healthy"), Some(2));
}

#[test]
fn test_get_animal() {
    let mut contract = LivestockManager::new();

    // Create an animal
    let animal_id = contract.create_animal(2, "Angus".to_string(), 15);

    // Retrieve the animal
    let animal = contract.get_animal(animal_id).unwrap();

    // Verify animal details
    assert_eq!(animal.age, 2);
    assert_eq!(animal.breed, "Angus");
    assert_eq!(animal.height, 15);
}

#[test]
fn test_get_all_animals() {
    let mut contract = LivestockManager::new();

    // Create multiple animals
    contract.create_animal(2, "Angus".to_string(), 15);
    contract.create_animal(3, "Holstein".to_string(), 16);

    // Retrieve all animals
    let animals = contract.get_all_animals();

    // Verify the number of animals
    assert_eq!(animals.len(), 2);
}

#[test]
fn test_get_pedigree() {
    let mut contract = LivestockManager::new();

    // Create parent animals
    let parent1_id = contract.create_animal(3, "Angus".to_string(), 16);
    let parent2_id = contract.create_animal(2, "Angus".to_string(), 15);

    // Breed animals to create offspring
    let offspring_id = contract
        .breed_animals(parent1_id, parent2_id, "Angus".to_string())
        .unwrap();

    // Retrieve the pedigree of the offspring
    let pedigree = contract.get_pedigree(offspring_id).unwrap();

    // Verify pedigree details
    assert_eq!(pedigree.parent1_id, parent1_id);
    assert_eq!(pedigree.parent2_id, parent2_id);
}

#[test]
fn test_get_average_height() {
    let mut contract = LivestockManager::new();

    // Create multiple animals with different heights
    contract.create_animal(2, "Angus".to_string(), 15);
    contract.create_animal(3, "Holstein".to_string(), 16);
    contract.create_animal(2, "Angus".to_string(), 14);

    // Calculate average height
    let average_height = contract.get_average_height();

    // Verify average height
    assert_eq!(average_height, 15);
}

#[test]
fn test_get_average_age() {
    let mut contract = LivestockManager::new();

    // Create multiple animals with different ages
    contract.create_animal(2, "Angus".to_string(), 15);
    contract.create_animal(3, "Holstein".to_string(), 16);
    contract.create_animal(4, "Angus".to_string(), 14);

    // Calculate average age
    let average_age = contract.get_average_age();

    // Verify average age
    assert_eq!(average_age, 3);
}

#[test]
fn test_get_sick_animals() {
    let mut contract = LivestockManager::new();

    // Create animals with different health statuses
    let healthy_animal_id = contract.create_animal(2, "Angus".to_string(), 15);
    let sick_animal_id = contract.create_animal(3, "Holstein".to_string(), 16);

    // Update one animal to sick status
    contract.update_health_status(sick_animal_id, HealthStatus::Sick);
    contract.update_health_status(healthy_animal_id, HealthStatus::Healthy);

    // Retrieve sick animals
    let sick_animals = contract.get_sick_animals();

    // Verify the sick animals
    assert_eq!(sick_animals.len(), 1);
    assert_eq!(sick_animals[0].id, sick_animal_id);
}

#[test]
fn test_get_healthy_animals() {
    let mut contract = LivestockManager::new();

    // Create animals with different health statuses
    let healthy_animal_id = contract.create_animal(2, "Angus".to_string(), 15);
    let sick_animal_id = contract.create_animal(3, "Holstein".to_string(), 16);

    // Update one animal to sick status
    contract.update_health_status(sick_animal_id, HealthStatus::Sick);
    contract.update_health_status(healthy_animal_id, HealthStatus::Healthy);

    // Retrieve healthy animals
    let healthy_animals = contract.get_healthy_animals();

    // Verify the healthy animals
    assert_eq!(healthy_animals.len(), 1);
    assert_eq!(healthy_animals[0].id, healthy_animal_id);
}

#[test]
fn test_get_critical_animals() {
    let mut contract = LivestockManager::new();

    // Create animals with different health statuses
    let healthy_animal_id = contract.create_animal(2, "Angus".to_string(), 15);
    let critical_animal_id = contract.create_animal(3, "Holstein".to_string(), 16);

    // Update one animal to critical status
    contract.update_health_status(critical_animal_id, HealthStatus::Critical);
    contract.update_health_status(healthy_animal_id, HealthStatus::Healthy);

    // Retrieve critical animals
    let critical_animals = contract.get_critical_animals();

    // Verify the critical animals
    assert_eq!(critical_animals.len(), 1);
    assert_eq!(critical_animals[0].id, critical_animal_id);
}

#[test]
fn test_get_recovering_animals() {
    let mut contract = LivestockManager::new();

    // Create animals with different health statuses
    let healthy_animal_id = contract.create_animal(2, "Angus".to_string(), 15);
    let recovering_animal_id = contract.create_animal(3, "Holstein".to_string(), 16);

    // Update one animal to recovering status
    contract.update_health_status(recovering_animal_id, HealthStatus::Recovering);
    contract.update_health_status(healthy_animal_id, HealthStatus::Healthy);

    // Retrieve recovering animals
    let recovering_animals = contract.get_recovering_animals();

    // Verify the recovering animals
    assert_eq!(recovering_animals.len(), 1);
    assert_eq!(recovering_animals[0].id, recovering_animal_id);
}

#[test]
fn test_get_animal_per_breed() {
    let mut contract = LivestockManager::new();

    // Create animals of different breeds
    let angus_id = contract.create_animal(2, "Angus".to_string(), 15);
    let holstein_id = contract.create_animal(3, "Holstein".to_string(), 16);

    // Retrieve animals by breed
    let angus_animals = contract.get_animal_per_breed("Angus");
    let holstein_animals = contract.get_animal_per_breed("Holstein");

    // Verify the retrieved animals
    assert_eq!(angus_animals.len(), 1);
    assert_eq!(angus_animals[0].id, angus_id);

    assert_eq!(holstein_animals.len(), 1);
    assert_eq!(holstein_animals[0].id, holstein_id);
}

#[test]
fn test_delete_animal() {
    let mut contract = LivestockManager::new();

    // Create an animal
    let animal_id = contract.create_animal(2, "Angus".to_string(), 15);

    // Delete the animal
    assert!(contract.delete_animal(animal_id));

    // Verify the animal is deleted
    assert!(contract.get_animal(animal_id).is_none());
}
