//! Power equipment entities and collections.
//!
//! Typed access to Redfish `PowerEquipment` and the power shelf resources
//! exposed through its `PowerShelves` collection. The resources hold the
//! fields read from the service; fetching them is the caller's I/O, steered
//! by the requests these types hand out.

use vstd::prelude::*;

verus! {

/// Kind of a power distribution equipment.
#[derive(Clone, Copy, Debug, PartialEq, Eq, Structural)]
pub enum PowerEquipmentType {
    RackPDU,
    FloorPDU,
    ManualTransferSwitch,
    AutomaticTransferSwitch,
    Switchgear,
    PowerShelf,
    Bus,
    BatteryShelf,
}

/// The links of the service root that lead to power equipment.
pub struct ServiceRootLinks {
    /// `@odata.id` of the `PowerEquipment` resource, when the root links to it.
    pub power_equipment: Option<String>,
}

impl ServiceRootLinks {
    /// The resource to fetch to build a [`PowerEquipment`]: none when the
    /// root has no `PowerEquipment` link, and then there is no power
    /// equipment service.
    pub fn power_equipment_request(&self) -> (r: Option<&String>)
        ensures
            self.power_equipment is None ==> r is None,
            self.power_equipment matches Some(l) ==> r == Some(&l),
    {
        self.power_equipment.as_ref()
    }
}

/// The `PowerEquipment` resource as read from the service.
pub struct PowerEquipmentData {
    /// `@odata.id` of the resource.
    pub odata_id: String,
    pub id: String,
    pub name: String,
    /// `@odata.id` of the `PowerShelves` collection, when the service exposes it.
    pub power_shelves: Option<String>,
}

/// A `PowerDistributionCollection` resource as read from the service.
pub struct PowerDistributionCollectionData {
    /// `@odata.id` of the collection.
    pub odata_id: String,
    pub name: String,
    /// `@odata.id` of every member, in collection order.
    pub members: Vec<String>,
}

/// A `PowerDistribution` resource as read from the service.
pub struct PowerDistributionData {
    /// `@odata.id` of the resource.
    pub odata_id: String,
    pub id: String,
    pub name: String,
    pub equipment_type: PowerEquipmentType,
    pub manufacturer: Option<Option<String>>,
    pub model: Option<Option<String>>,
    pub serial_number: Option<Option<String>>,
    pub part_number: Option<Option<String>>,
}

/// Power equipment service.
///
/// Provides access to root-level power distribution equipment collections.
pub struct PowerEquipment {
    data: PowerEquipmentData,
}

impl PowerEquipment {
    pub closed spec fn spec_data(&self) -> &PowerEquipmentData {
        &self.data
    }

    /// Wrap the fetched `PowerEquipment` resource.
    pub fn new(data: PowerEquipmentData) -> (r: Self)
        ensures
            r.spec_data() == data,
    {
        PowerEquipment { data }
    }

    /// Get the raw schema data for this power equipment service.
    pub fn raw(&self) -> (r: &PowerEquipmentData)
        ensures
            r == self.spec_data(),
    {
        &self.data
    }

    /// `@odata.id` of this resource.
    pub fn odata_id(&self) -> (r: &String)
        ensures
            r == self.spec_data().odata_id,
    {
        &self.data.odata_id
    }

    /// The collection to expand to list the power shelves: none when the
    /// service does not expose `PowerShelves`.
    pub fn power_shelves_request(&self) -> (r: Option<&String>)
        ensures
            self.spec_data().power_shelves is None ==> r is None,
            self.spec_data().power_shelves matches Some(l) ==> r == Some(&l),
    {
        self.data.power_shelves.as_ref()
    }
}

/// Power shelf collection.
///
/// Provides functions to access `PowerShelves` members.
pub struct PowerShelfCollection {
    collection: PowerDistributionCollectionData,
}

impl PowerShelfCollection {
    pub closed spec fn spec_data(&self) -> &PowerDistributionCollectionData {
        &self.collection
    }

    /// Wrap the fetched collection resource.
    pub fn new(collection: PowerDistributionCollectionData) -> (r: Self)
        ensures
            r.spec_data() == collection,
    {
        PowerShelfCollection { collection }
    }

    /// `@odata.id` of this collection.
    pub fn odata_id(&self) -> (r: &String)
        ensures
            r == self.spec_data().odata_id,
    {
        &self.collection.odata_id
    }

    /// Start listing the power shelves of this collection: one fetch per
    /// member, in collection order.
    pub fn members(&self) -> (r: MembersFetch)
        ensures
            r.spec_pending() == self.spec_data().members@,
            r.spec_fetched().len() == 0,
    {
        let mut pending: Vec<String> = Vec::new();
        let mut i: usize = 0;
        while i < self.collection.members.len()
            invariant
                i <= self.collection.members@.len(),
                pending@ == self.collection.members@.take(i as int),
            decreases self.collection.members@.len() - i,
        {
            pending.push(self.collection.members[i].clone());
            proof {
                assert(pending@ =~= self.collection.members@.take(i + 1));
            }
            i = i + 1;
        }
        proof {
            assert(pending@ =~= self.collection.members@);
        }
        MembersFetch { pending, fetched: Vec::new() }
    }
}

/// The state of listing a power shelf collection: the member links and the
/// shelves fetched so far. Fetching stops at the first error, which the
/// caller returns as it is.
pub struct MembersFetch {
    pending: Vec<String>,
    fetched: Vec<PowerShelf>,
}

impl MembersFetch {
    /// Member links of the collection, in order.
    pub closed spec fn spec_pending(&self) -> Seq<String> {
        self.pending@
    }

    /// Shelves fetched so far, in member order.
    pub closed spec fn spec_fetched(&self) -> Seq<PowerShelf> {
        self.fetched@
    }

    /// The member to fetch next, or `None` when every member was fetched.
    pub fn next_request(&self) -> (r: Option<&String>)
        requires
            self.spec_fetched().len() <= self.spec_pending().len(),
        ensures
            self.spec_fetched().len() < self.spec_pending().len() ==> r == Some(
                &self.spec_pending()[self.spec_fetched().len() as int],
            ),
            self.spec_fetched().len() == self.spec_pending().len() ==> r is None,
    {
        if self.fetched.len() < self.pending.len() {
            Some(&self.pending[self.fetched.len()])
        } else {
            None
        }
    }

    /// Record the shelf fetched for the member that [`Self::next_request`]
    /// named.
    pub fn deliver(&mut self, data: PowerDistributionData)
        requires
            old(self).spec_fetched().len() < old(self).spec_pending().len(),
        ensures
            final(self).spec_pending() == old(self).spec_pending(),
            final(self).spec_fetched() == old(self).spec_fetched().push(
                PowerShelf::spec_new(data),
            ),
            final(self).spec_fetched()[old(self).spec_fetched().len() as int].spec_data() == data,
    {
        self.fetched.push(PowerShelf { data });
    }

    /// The shelves, one per member in collection order, once every member
    /// was fetched.
    pub fn finish(self) -> (r: Vec<PowerShelf>)
        requires
            self.spec_fetched().len() == self.spec_pending().len(),
        ensures
            r@ == self.spec_fetched(),
            r@.len() == self.spec_pending().len(),
    {
        self.fetched
    }
}

/// Power shelf.
///
/// A power shelf is represented by the Redfish `PowerDistribution` schema with
/// `EquipmentType` set to `PowerShelf`.
pub struct PowerShelf {
    data: PowerDistributionData,
}

impl PowerShelf {
    pub closed spec fn spec_data(&self) -> &PowerDistributionData {
        &self.data
    }

    pub closed spec fn spec_new(data: PowerDistributionData) -> PowerShelf {
        PowerShelf { data }
    }

    /// A shelf built from a document holds that document.
    pub proof fn lemma_spec_new(data: PowerDistributionData)
        ensures
            Self::spec_new(data).spec_data() == data,
    {
    }

    /// Wrap a fetched `PowerDistribution` resource.
    pub fn new(data: PowerDistributionData) -> (r: Self)
        ensures
            r == Self::spec_new(data),
            r.spec_data() == data,
    {
        PowerShelf { data }
    }

    /// Get the raw `PowerDistribution` schema data for this power shelf.
    pub fn raw(&self) -> (r: &PowerDistributionData)
        ensures
            r == self.spec_data(),
    {
        &self.data
    }

    /// `@odata.id` of this resource.
    pub fn odata_id(&self) -> (r: &String)
        ensures
            r == self.spec_data().odata_id,
    {
        &self.data.odata_id
    }
}

} // verus!
