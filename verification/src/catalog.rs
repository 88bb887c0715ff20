//! The product catalog: an append-only arena in which a product's id is its
//! index. Records are never removed; an update replaces the fields of one
//! slot but preserves its id.

use vstd::prelude::*;

use crate::models::{Product, ProductView};

verus! {

/// The catalog store. Its view is the sequence of product views, in id order.
pub struct Catalog {
    pub products: Vec<Product>,
}

impl View for Catalog {
    type V = Seq<ProductView>;

    open spec fn view(&self) -> Seq<ProductView> {
        self.products.deep_view()
    }
}

impl Catalog {
    /// Store-level invariant: each record's id is its index, and each record
    /// is well formed.
    pub open spec fn wf(self) -> bool {
        forall|i: int| 0 <= i < self@.len() ==> {
            &&& (#[trigger] self@[i]).id == i
            &&& self@[i].wf()
        }
    }

    /// An empty catalog.
    pub fn new() -> (r: Self)
        ensures
            r@ =~= Seq::<ProductView>::empty(),
            r.wf(),
    {
        Catalog { products: Vec::new() }
    }

    /// Adds a product. The new record's id is its index, which is returned;
    /// ids are handed out as `0, 1, 2, ...` in insertion order. A product
    /// with a zero price is rejected and the catalog is unchanged.
    pub fn add_product(&mut self, product: Product) -> (r: Result<u64, String>)
        requires
            old(self).wf(),
        ensures
            final(self).wf(),
            product@.price == 0 ==> r is Err && *final(self) == *old(self),
            product@.price > 0 ==> {
                &&& r == Ok::<u64, String>(old(self)@.len() as u64)
                &&& final(self)@ =~= old(self)@.push(ProductView {
                    id: old(self)@.len() as u64,
                    ..product@
                })
            },
    {
        if product.price == 0 {
            return Err(String::from_str("Product price must be positive"));
        }
        let id = self.products.len() as u64;
        let record = Product {
            id,
            name: product.name,
            description: product.description,
            price: product.price,
            unit: product.unit,
        };
        self.products.push(record);
        proof {
            assert forall|i: int| 0 <= i < self@.len() implies (#[trigger] self@[i]).id == i
                && self@[i].wf() by {
                if i < old(self)@.len() {
                    assert(old(self)@[i].id == i && old(self)@[i].wf());
                    assert(self@[i] == old(self)@[i]);
                }
            }
        }
        Ok(id)
    }

    /// Looks a product up by id; `None` exactly when the id is out of range.
    pub fn get_product_by_id(&self, id: u64) -> (r: Option<Product>)
        ensures
            match r {
                Some(p) => id < self@.len() && p@ == self@[id as int],
                None => id >= self@.len(),
            },
    {
        if id >= self.products.len() as u64 {
            None
        } else {
            Some(self.products[id as usize].clone())
        }
    }

    /// Returns every product, in id order.
    pub fn get_all_products(&self) -> (r: Vec<Product>)
        ensures
            r.deep_view() == self@,
    {
        let r = self.products.clone();
        proof {
            assert(r.deep_view() =~= self.products.deep_view());
        }
        r
    }

    /// Replaces the fields of the record at `id`, preserving the id itself.
    /// Fails, leaving the catalog unchanged, when the id is out of range or
    /// the new price is zero.
    pub fn update_product(&mut self, id: u64, updated_product: Product) -> (r: Result<
        Product,
        String,
    >)
        requires
            old(self).wf(),
        ensures
            final(self).wf(),
            id >= old(self)@.len() ==> r is Err && *final(self) == *old(self),
            id < old(self)@.len() && updated_product@.price == 0 ==> r is Err && *final(self)
                == *old(self),
            id < old(self)@.len() && updated_product@.price > 0 ==> {
                &&& final(self)@ =~= old(self)@.update(id as int, (ProductView {
                    id: id,
                    ..updated_product@
                }))
                &&& r matches Ok(p) && p@ == final(self)@[id as int]
            },
    {
        if id >= self.products.len() as u64 {
            return Err(String::from_str("Product not found"));
        }
        if updated_product.price == 0 {
            return Err(String::from_str("Product price must be positive"));
        }
        let record = Product {
            id,
            name: updated_product.name,
            description: updated_product.description,
            price: updated_product.price,
            unit: updated_product.unit,
        };
        let result = record.clone();
        self.products[id as usize] = record;
        proof {
            assert forall|i: int| 0 <= i < self@.len() implies (#[trigger] self@[i]).id == i
                && self@[i].wf() by {
                if i != id as int {
                    assert(old(self)@[i].id == i && old(self)@[i].wf());
                    assert(self@[i] == old(self)@[i]);
                }
            }
        }
        Ok(result)
    }

    /// The number of products in the catalog.
    pub fn len(&self) -> (r: usize)
        ensures
            r == self@.len(),
    {
        self.products.len()
    }
}

} // verus!
