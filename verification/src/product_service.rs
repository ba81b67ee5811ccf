use vstd::prelude::*;
use crate::uuid_text::{new_uuid_v4, uuid_hyphenated, uuid_text};

verus! {

/// A catalogue product, identified by a UUID.
pub struct Product {
    pub id: u128,
    pub name: String,
    pub description: String,
    pub price: isize,
    pub sku_code: String,
}

/// A request to create a product.
pub struct ProductRequest {
    pub name: String,
    pub description: String,
    pub price: isize,
    pub sku_code: String,
}

/// A product as the API shows it.
pub struct ProductResponse {
    pub name: String,
    pub description: String,
    pub price: isize,
    pub sku_code: String,
}

/// The failure of a product store.
pub enum StoreError {
    Other(String),
}

impl Product {
    /// The product a request describes, under the given id.
    pub fn from_request_with_id(value: ProductRequest, id: u128) -> (r: Product)
        ensures
            r.id == id,
            r.name@ == value.name@,
            r.description@ == value.description@,
            r.price == value.price,
            r.sku_code@ == value.sku_code@,
    {
        Product {
            id,
            name: value.name,
            description: value.description,
            price: value.price,
            sku_code: value.sku_code,
        }
    }

    /// The product a request describes, under a fresh random id.
    pub fn from_request(value: ProductRequest) -> (r: Product)
        ensures
            r.name@ == value.name@,
            r.description@ == value.description@,
            r.price == value.price,
            r.sku_code@ == value.sku_code@,
    {
        let id = new_uuid_v4();
        Product::from_request_with_id(value, id)
    }
}

impl ProductResponse {
    /// What the API shows of a product: everything but its id.
    pub fn from_product(value: Product) -> (r: ProductResponse)
        ensures
            r.name@ == value.name@,
            r.description@ == value.description@,
            r.price == value.price,
            r.sku_code@ == value.sku_code@,
    {
        ProductResponse {
            name: value.name,
            description: value.description,
            price: value.price,
            sku_code: value.sku_code,
        }
    }
}

/// The store key of a product: `products:` and its UUID.
pub fn product_key(id: u128) -> (r: String)
    ensures
        r@ == "products:"@ + uuid_hyphenated(id),
{
    let mut k = String::from_str("products:");
    let u = uuid_text(id);
    k.append(u.as_str());
    k
}

/// The pattern of the keys of all products.
pub fn products_pattern() -> (r: String)
    ensures
        r@ == "products:*"@,
{
    String::from_str("products:*")
}

/// Whether `p` is the sample product with this name, description, price
/// and SKU.
pub open spec fn is_sample(p: Product, name: Seq<char>, description: Seq<char>, price: isize, sku: Seq<char>) -> bool {
    p.name@ == name && p.description@ == description && p.price == price && p.sku_code@ == sku
}

/// The products an empty store is seeded with, in order.
pub open spec fn seed_catalogue(v: Seq<Product>) -> bool {
    &&& v.len() == 3
    &&& is_sample(v[0], "iPhone 13"@, "New iPhone"@, 1000, "iphone_13"@)
    &&& is_sample(v[1], "Samsung S23"@, "New Samsung"@, 800, "samsung_s23"@)
    &&& is_sample(v[2], "Google Pixel 8"@, "New Pixel"@, 7000, "pixel_8"@)
}

/// The seed products, each under a fresh random id.
pub fn seed_products() -> (r: Vec<Product>)
    ensures
        seed_catalogue(r@),
{
    let mut v: Vec<Product> = Vec::new();
    v.push(Product {
        id: new_uuid_v4(),
        name: String::from_str("iPhone 13"),
        description: String::from_str("New iPhone"),
        price: 1000,
        sku_code: String::from_str("iphone_13"),
    });
    v.push(Product {
        id: new_uuid_v4(),
        name: String::from_str("Samsung S23"),
        description: String::from_str("New Samsung"),
        price: 800,
        sku_code: String::from_str("samsung_s23"),
    });
    v.push(Product {
        id: new_uuid_v4(),
        name: String::from_str("Google Pixel 8"),
        description: String::from_str("New Pixel"),
        price: 7000,
        sku_code: String::from_str("pixel_8"),
    });
    v
}

/// The product service: its store, and whether it has started.
pub struct Service<S> {
    pub store: S,
    started: bool,
}

/// Where starting the service stands.
pub enum StartStep {
    /// Waiting to learn whether the store is empty.
    CheckEmpty,
    /// Inserting the seed products still in `remaining`.
    Seeding { remaining: Vec<Product> },
    /// Finished.
    Done,
}

/// What the store reported.
pub enum StartEvent {
    IsEmpty(Result<bool, StoreError>),
    Inserted(Result<(), StoreError>),
}

/// What to do next while starting.
pub enum StartAction {
    /// Ask the store whether it holds no product.
    CheckEmpty,
    /// Insert this product.
    Insert(Product),
    /// Starting is over, with this outcome.
    Finish(Result<(), StoreError>),
}

pub open spec fn start_answers(s: StartStep, e: StartEvent) -> bool {
    match s {
        StartStep::CheckEmpty => e is IsEmpty,
        StartStep::Seeding { .. } => e is Inserted,
        StartStep::Done => false,
    }
}

/// One step of starting, as `start_step` takes it, with whether the
/// service was started before (`was`) and after (`now`) it: a store
/// failure ends starting with that failure, the service as it was; a store
/// that is not empty starts the service at once; an empty one is seeded
/// with the sample products one by one, and the service starts once the
/// last is in.
pub open spec fn start_next(step: StartStep, e: StartEvent, next: StartStep, a: StartAction, was: bool, now: bool) -> bool {
    match (step, e) {
        (_, StartEvent::IsEmpty(Err(err))) | (_, StartEvent::Inserted(Err(err))) => {
            &&& next == StartStep::Done
            &&& a == StartAction::Finish(Err(err))
            &&& now == was
        },
        (_, StartEvent::IsEmpty(Ok(false))) => {
            &&& next == StartStep::Done
            &&& a == StartAction::Finish(Ok(()))
            &&& now
        },
        (_, StartEvent::IsEmpty(Ok(true))) => {
            &&& a matches StartAction::Insert(p)
            &&& next matches StartStep::Seeding { remaining }
            &&& seed_catalogue(seq![p] + remaining@)
            &&& now == was
        },
        (StartStep::Seeding { remaining }, StartEvent::Inserted(Ok(()))) => if remaining@.len() == 0 {
            &&& next == StartStep::Done
            &&& a == StartAction::Finish(Ok(()))
            &&& now
        } else {
            &&& a == StartAction::Insert(remaining@[0])
            &&& next matches StartStep::Seeding { remaining: rest }
            &&& rest@ == remaining@.drop_first()
            &&& now == was
        },
        _ => false,
    }
}

/// Starting on an empty store whose inserts all succeed inserts the three
/// seed products in catalogue order, starts the service only after the
/// last one, and finishes with success. `steps[i]` is the step after `i`
/// events and `started[i]` whether the service is started then.
pub proof fn lemma_seeding_run(steps: Seq<StartStep>, actions: Seq<StartAction>, started: Seq<bool>)
    requires
        steps.len() == 5,
        actions.len() == 4,
        started.len() == 5,
        steps[0] == StartStep::CheckEmpty,
        start_next(steps[0], StartEvent::IsEmpty(Ok(true)), steps[1], actions[0], started[0], started[1]),
        forall|i: int| 1 <= i < 4 ==> start_next(#[trigger] steps[i], StartEvent::Inserted(Ok(())), steps[i + 1], actions[i], started[i], started[i + 1]),
    ensures
        actions[0] matches StartAction::Insert(p0) && actions[1] matches StartAction::Insert(p1)
            && actions[2] matches StartAction::Insert(p2) && seed_catalogue(seq![p0, p1, p2]),
        actions[3] == StartAction::Finish(Ok(())),
        steps[4] == StartStep::Done,
        started[3] == started[0],
        started[4],
{
    assert(start_next(steps[1], StartEvent::Inserted(Ok(())), steps[2], actions[1], started[1], started[2]));
    assert(start_next(steps[2], StartEvent::Inserted(Ok(())), steps[3], actions[2], started[2], started[3]));
    assert(start_next(steps[3], StartEvent::Inserted(Ok(())), steps[4], actions[3], started[3], started[4]));
    let p0 = actions[0]->Insert_0;
    let rem0 = steps[1]->remaining@;
    assert(seed_catalogue(seq![p0] + rem0));
    assert((seq![p0] + rem0).len() == 3);
    let rem1 = steps[2]->remaining@;
    let rem2 = steps[3]->remaining@;
    assert(rem1 =~= rem0.drop_first());
    assert(rem2 =~= rem1.drop_first());
    assert(seq![p0, rem0[0], rem1[0]] =~= seq![p0] + rem0);
}

impl<S> Service<S> {
    pub fn new(store: S) -> (r: Self)
        ensures
            r.store_of() == store,
            !r.is_started(),
    {
        Service { store, started: false }
    }

    pub closed spec fn store_of(&self) -> S {
        self.store
    }

    pub closed spec fn is_started(&self) -> bool {
        self.started
    }

    /// Whether the service has started.
    pub fn started(&self) -> (r: bool)
        ensures
            r == self.is_started(),
    {
        self.started
    }

    /// Starting begins by asking whether the store is empty.
    pub fn start(&self) -> (r: (StartStep, StartAction))
        ensures
            r.0 == StartStep::CheckEmpty,
            r.1 == StartAction::CheckEmpty,
    {
        (StartStep::CheckEmpty, StartAction::CheckEmpty)
    }

    /// Moves starting on: an empty store is seeded with the sample products
    /// one by one; a store failure ends starting with that failure, the
    /// service not started; once seeding is done, or at once for a store
    /// that is not empty, the service is started.
    pub fn start_step(&mut self, step: StartStep, e: StartEvent) -> (r: (StartStep, StartAction))
        requires
            start_answers(step, e),
        ensures
            start_next(step, e, r.0, r.1, old(self).is_started(), final(self).is_started()),
            final(self).store_of() == old(self).store_of(),
    {
        match e {
            StartEvent::IsEmpty(Err(err)) | StartEvent::Inserted(Err(err)) => {
                (StartStep::Done, StartAction::Finish(Err(err)))
            },
            StartEvent::IsEmpty(Ok(empty)) => {
                if empty {
                    let mut products = seed_products();
                    let first = products.remove(0);
                    (StartStep::Seeding { remaining: products }, StartAction::Insert(first))
                } else {
                    self.started = true;
                    (StartStep::Done, StartAction::Finish(Ok(())))
                }
            },
            StartEvent::Inserted(Ok(())) => match step {
                StartStep::Seeding { remaining } => {
                    let mut remaining = remaining;
                    if remaining.len() == 0 {
                        self.started = true;
                        (StartStep::Done, StartAction::Finish(Ok(())))
                    } else {
                        let next = remaining.remove(0);
                        (StartStep::Seeding { remaining }, StartAction::Insert(next))
                    }
                },
                _ => (StartStep::Done, StartAction::Finish(Ok(()))),
            },
        }
    }
}

} // verus!
