use dispatcher::power_equipment::PowerDistributionCollectionData;
use dispatcher::power_equipment::PowerDistributionData;
use dispatcher::power_equipment::PowerEquipment;
use dispatcher::power_equipment::PowerEquipmentData;
use dispatcher::power_equipment::PowerEquipmentType;
use dispatcher::power_equipment::PowerShelf;
use dispatcher::power_equipment::PowerShelfCollection;
use dispatcher::power_equipment::ServiceRootLinks;

const POWER_EQUIPMENT_ID: &str = "/redfish/v1/PowerEquipment";
const POWER_SHELVES_ID: &str = "/redfish/v1/PowerEquipment/PowerShelves";

fn power_equipment(power_shelves: Option<&str>) -> PowerEquipment {
    PowerEquipment::new(PowerEquipmentData {
        odata_id: POWER_EQUIPMENT_ID.to_string(),
        id: "PowerEquipment".to_string(),
        name: "Power Equipment".to_string(),
        power_shelves: power_shelves.map(|s| s.to_string()),
    })
}

fn shelf_data(odata_id: &str, id: &str) -> PowerDistributionData {
    PowerDistributionData {
        odata_id: odata_id.to_string(),
        id: id.to_string(),
        name: format!("Power Shelf {}", id),
        equipment_type: PowerEquipmentType::PowerShelf,
        manufacturer: Some(Some("NVIDIA".into())),
        model: Some(Some("NV-PowerShelf-1".into())),
        serial_number: Some(Some("PS-12345".into())),
        part_number: Some(Some("900-12345-0000-000".into())),
    }
}

/// Walks the collection as a client does: one fetch per requested member.
fn list(collection: &PowerShelfCollection) -> Vec<PowerShelf> {
    let mut fetch = collection.members();
    while let Some(link) = fetch.next_request().cloned() {
        let id = link.rsplit('/').next().unwrap().to_string();
        fetch.deliver(shelf_data(&link, &id));
    }
    fetch.finish()
}

#[test]
fn power_equipment_lists_power_shelves() {
    let shelf_id = format!("{}/1", POWER_SHELVES_ID);
    let power_equipment = power_equipment(Some(POWER_SHELVES_ID));
    assert_eq!(power_equipment.odata_id().to_string(), POWER_EQUIPMENT_ID);
    let link = power_equipment.power_shelves_request().unwrap();
    assert_eq!(link, POWER_SHELVES_ID);
    let collection = PowerShelfCollection::new(PowerDistributionCollectionData {
        odata_id: link.clone(),
        name: "Power Shelves".to_string(),
        members: vec![shelf_id.clone()],
    });
    let shelves = list(&collection);
    assert_eq!(shelves.len(), 1);
    let shelf = shelves.first().unwrap();
    let raw = shelf.raw();
    assert_eq!(shelf.odata_id().to_string(), shelf_id);
    assert_eq!(raw.equipment_type, PowerEquipmentType::PowerShelf);
    assert_eq!(raw.manufacturer, Some(Some("NVIDIA".into())));
    assert_eq!(raw.model, Some(Some("NV-PowerShelf-1".into())));
    assert_eq!(raw.serial_number, Some(Some("PS-12345".into())));
    assert_eq!(raw.part_number, Some(Some("900-12345-0000-000".into())));
}

#[test]
fn missing_power_equipment_link_returns_none() {
    let root = ServiceRootLinks { power_equipment: None };
    assert!(root.power_equipment_request().is_none());
    let root = ServiceRootLinks { power_equipment: Some(POWER_EQUIPMENT_ID.to_string()) };
    assert_eq!(root.power_equipment_request().unwrap(), POWER_EQUIPMENT_ID);
}

#[test]
fn missing_power_shelves_link_returns_none() {
    let power_equipment = power_equipment(None);
    assert!(power_equipment.power_shelves_request().is_none());
    assert_eq!(power_equipment.raw().name, "Power Equipment");
}

#[test]
fn shelves_come_back_in_member_order() {
    let members: Vec<String> = (1..=3).map(|i| format!("{}/{}", POWER_SHELVES_ID, i)).collect();
    let collection = PowerShelfCollection::new(PowerDistributionCollectionData {
        odata_id: POWER_SHELVES_ID.to_string(),
        name: "Power Shelves".to_string(),
        members: members.clone(),
    });
    assert_eq!(collection.odata_id(), POWER_SHELVES_ID);
    let shelves = list(&collection);
    let ids: Vec<String> = shelves.iter().map(|s| s.odata_id().clone()).collect();
    assert_eq!(ids, members);
}

#[test]
fn empty_collection_lists_no_shelves() {
    let collection = PowerShelfCollection::new(PowerDistributionCollectionData {
        odata_id: POWER_SHELVES_ID.to_string(),
        name: "Power Shelves".to_string(),
        members: Vec::new(),
    });
    let fetch = collection.members();
    assert!(fetch.next_request().is_none());
    assert!(fetch.finish().is_empty());
}
