//! Catalog entry points: listing, administrative insertion and update, and
//! the one-shot seeding of the initial product range.

use vstd::prelude::*;

use crate::models::{Product, ProductView};
use crate::store::Store;

verus! {

/// The seeded product range, with ids starting at `base`. Prices are in
/// minor currency units.
pub open spec fn seeded_products(base: int) -> Seq<ProductView> {
    seq![
        ProductView {
            id: base as u64,
            name: "Milk"@,
            description: "Fresh Cow Milk"@,
            price: 7000,
            unit: "litre"@,
        },
        ProductView {
            id: (base + 1) as u64,
            name: "Paneer"@,
            description: "Fresh Homemade Paneer"@,
            price: 30000,
            unit: "kg"@,
        },
        ProductView {
            id: (base + 2) as u64,
            name: "Methi Dahi"@,
            description: "Curd with Fenugreek"@,
            price: 10000,
            unit: "kg"@,
        },
        ProductView {
            id: (base + 3) as u64,
            name: "Khatti Dahi"@,
            description: "Sour Curd"@,
            price: 5000,
            unit: "kg"@,
        },
        ProductView {
            id: (base + 4) as u64,
            name: "Matha"@,
            description: "Buttermilk"@,
            price: 2000,
            unit: "litre"@,
        },
        ProductView {
            id: (base + 5) as u64,
            name: "Ghee"@,
            description: "Pure Desi Ghee"@,
            price: 60000,
            unit: "litre"@,
        },
        ProductView {
            id: (base + 6) as u64,
            name: "Cream"@,
            description: "Fresh Milk Cream"@,
            price: 30000,
            unit: "kg"@,
        },
    ]
}

impl Store {
    /// Every product in the catalog, in id order.
    pub fn get_products(&self) -> (r: Vec<Product>)
        ensures
            r.deep_view() == self.catalog@,
    {
        self.catalog.get_all_products()
    }

    /// Adds a product to the catalog and returns its id; ids are handed out
    /// as `0, 1, 2, ...` in insertion order. A zero price is rejected and
    /// nothing changes.
    pub fn add_product_admin(
        &mut self,
        name: String,
        description: String,
        price: u64,
        unit: String,
    ) -> (r: Result<u64, String>)
        requires
            old(self).wf(),
        ensures
            final(self).wf(),
            price == 0 ==> r is Err && *final(self) == *old(self),
            price > 0 ==> {
                &&& r == Ok::<u64, String>(old(self).catalog@.len() as u64)
                &&& final(self).catalog@ =~= old(self).catalog@.push(ProductView {
                    id: old(self).catalog@.len() as u64,
                    name: name@,
                    description: description@,
                    price: price,
                    unit: unit@,
                })
                &&& final(self).profiles@ == old(self).profiles@
                &&& final(self).orders == old(self).orders
                &&& final(self).subscriptions == old(self).subscriptions
                &&& final(self).initialized == old(self).initialized
            },
    {
        let product_to_add = Product { id: 0, name, description, price, unit };
        self.catalog.add_product(product_to_add)
    }

    /// Replaces the fields of the product at `id`, preserving the id; an
    /// unknown id or a zero price is rejected and nothing changes.
    pub fn update_product_admin(
        &mut self,
        id: u64,
        name: String,
        description: String,
        price: u64,
        unit: String,
    ) -> (r: Result<Product, String>)
        requires
            old(self).wf(),
        ensures
            final(self).wf(),
            id >= old(self).catalog@.len() || price == 0 ==> r is Err && *final(self) == *old(
                self,
            ),
            id < old(self).catalog@.len() && price > 0 ==> {
                let updated = ProductView {
                    id: id,
                    name: name@,
                    description: description@,
                    price: price,
                    unit: unit@,
                };
                &&& final(self).catalog@ =~= old(self).catalog@.update(id as int, updated)
                &&& (r matches Ok(p) && p@ == updated)
                &&& final(self).profiles@ == old(self).profiles@
                &&& final(self).orders == old(self).orders
                &&& final(self).subscriptions == old(self).subscriptions
                &&& final(self).initialized == old(self).initialized
            },
    {
        let product_update = Product { id, name, description, price, unit };
        self.catalog.update_product(id, product_update)
    }

    /// Seeds the catalog with the initial product range, exactly once; a
    /// second call is rejected and changes nothing.
    pub fn initialize_products(&mut self) -> (r: Result<String, String>)
        requires
            old(self).wf(),
        ensures
            final(self).wf(),
            old(self).initialized ==> r is Err && *final(self) == *old(self),
            !old(self).initialized ==> {
                &&& r is Ok
                &&& final(self).catalog@ =~= old(self).catalog@ + seeded_products(
                    old(self).catalog@.len() as int,
                )
                &&& final(self).initialized
                &&& final(self).profiles@ == old(self).profiles@
                &&& final(self).orders == old(self).orders
                &&& final(self).subscriptions == old(self).subscriptions
            },
    {
        if self.is_initialized() {
            return Err(String::from_str("Already initialized"));
        }
        let ghost base = self.catalog@.len() as int;
        let _r0 = self.catalog.add_product(
            Product {
                id: 0,
                name: String::from_str("Milk"),
                description: String::from_str("Fresh Cow Milk"),
                price: 7000,
                unit: String::from_str("litre"),
            },
        );
        let _r1 = self.catalog.add_product(
            Product {
                id: 0,
                name: String::from_str("Paneer"),
                description: String::from_str("Fresh Homemade Paneer"),
                price: 30000,
                unit: String::from_str("kg"),
            },
        );
        let _r2 = self.catalog.add_product(
            Product {
                id: 0,
                name: String::from_str("Methi Dahi"),
                description: String::from_str("Curd with Fenugreek"),
                price: 10000,
                unit: String::from_str("kg"),
            },
        );
        let _r3 = self.catalog.add_product(
            Product {
                id: 0,
                name: String::from_str("Khatti Dahi"),
                description: String::from_str("Sour Curd"),
                price: 5000,
                unit: String::from_str("kg"),
            },
        );
        let _r4 = self.catalog.add_product(
            Product {
                id: 0,
                name: String::from_str("Matha"),
                description: String::from_str("Buttermilk"),
                price: 2000,
                unit: String::from_str("litre"),
            },
        );
        let _r5 = self.catalog.add_product(
            Product {
                id: 0,
                name: String::from_str("Ghee"),
                description: String::from_str("Pure Desi Ghee"),
                price: 60000,
                unit: String::from_str("litre"),
            },
        );
        let _r6 = self.catalog.add_product(
            Product {
                id: 0,
                name: String::from_str("Cream"),
                description: String::from_str("Fresh Milk Cream"),
                price: 30000,
                unit: String::from_str("kg"),
            },
        );
        proof {
            assert(self.catalog@ =~= old(self).catalog@ + seeded_products(base));
        }
        match self.mark_initialized() {
            Ok(_) => Ok(String::from_str("Initialized 7 products")),
            Err(e) => Err(e),
        }
    }
}

} // verus!
