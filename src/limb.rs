use vstd::prelude::*;

use crate::config::{
    json_document, parse_json_document, text_field, ConfigRecord, DocumentView, RecordView,
};
use crate::text::same_text;

verus! {

/// What can go wrong when a limb is read or written.
#[derive(Clone, Copy, Debug, PartialEq, Eq, Structural)]
pub enum Error {
    BrokenLimb,
    InvalidValue,
    InvalidOperation,
    WriteFailed,
    ReadFailed,
    Timeout,
}

pub open spec fn spec_error_message(e: Error) -> Seq<char> {
    match e {
        Error::BrokenLimb => "Broken limb"@,
        Error::InvalidValue => "Invalid value"@,
        Error::InvalidOperation => "Invalid operation"@,
        Error::WriteFailed => "Write failed"@,
        Error::ReadFailed => "Read failed"@,
        Error::Timeout => "Timeout"@,
    }
}

impl Error {
    /// A short human-readable name of the error.
    pub fn message(&self) -> (r: &'static str)
        ensures
            r@ == spec_error_message(*self),
    {
        match self {
            Error::BrokenLimb => "Broken limb",
            Error::InvalidValue => "Invalid value",
            Error::InvalidOperation => "Invalid operation",
            Error::WriteFailed => "Write failed",
            Error::ReadFailed => "Read failed",
            Error::Timeout => "Timeout",
        }
    }
}

/// Why a configuration document was not accepted.
#[derive(Clone, Copy, Debug, PartialEq, Eq, Structural)]
pub enum ConfigError {
    /// The text is not a JSON object of objects, or an entry has no textual "type".
    MalformedDocument,
    /// An entry names a type that is not registered.
    UnknownType,
    /// A factory refused an entry's record, or the new limb refused its "init" value.
    FactoryRejected,
}

pub open spec fn spec_config_error_message(e: ConfigError) -> Seq<char> {
    match e {
        ConfigError::MalformedDocument => "The provided configuration was ill-formed."@,
        ConfigError::UnknownType => "The provided configuration names an unknown limb type."@,
        ConfigError::FactoryRejected => "A limb could not be created from the provided configuration."@,
    }
}

impl ConfigError {
    pub fn message(&self) -> (r: &'static str)
        ensures
            r@ == spec_config_error_message(*self),
    {
        match self {
            ConfigError::MalformedDocument => "The provided configuration was ill-formed.",
            ConfigError::UnknownType => "The provided configuration names an unknown limb type.",
            ConfigError::FactoryRejected => "A limb could not be created from the provided configuration.",
        }
    }
}

/// A named endpoint that can be written and read with textual values.
/// Each kind of hardware implements it, and states in three predicates what its
/// operations may do; the library's contracts speak of limbs through them.
pub trait Limb: Sized {
    /// Whether building a limb of this kind from `config` may give `result`.
    spec fn builds_as(config: ConfigRecord, result: Option<Self>) -> bool;

    /// Whether writing `value` to this limb may leave it as `after` and return `result`.
    spec fn writes_as(self, value: String, after: Self, result: Result<(), Error>) -> bool;

    /// Whether reading this limb may leave it as `after` and return `result`.
    spec fn reads_as(self, after: Self, result: Result<String, Error>) -> bool;

    /// Builds the limb from its configuration record, or refuses the record.
    fn from_json(config: &ConfigRecord) -> (r: Option<Self>)
        ensures
            Self::builds_as(*config, r),
    ;

    fn set(&mut self, value: String) -> (r: Result<(), Error>)
        ensures
            old(self).writes_as(value, *final(self), r),
    ;

    fn get(&mut self) -> (r: Result<String, Error>)
        ensures
            old(self).reads_as(*final(self), r),
    ;

    /// The name under which the limb's type is registered.
    fn kind_name(&self) -> &'static str;
}

/// Builds limbs from configuration records: one kind of limb, or several told apart
/// by the factory's value.
pub trait LimbFactory {
    type Output: Limb;

    /// Whether this factory may give `result` for `config`.
    spec fn builds_as(&self, config: ConfigRecord, result: Option<Self::Output>) -> bool;

    fn build(&self, config: &ConfigRecord) -> (r: Option<Self::Output>)
        ensures
            self.builds_as(*config, r),
    ;
}

/// The factory of the limb type `T`, through `T::from_json`.
pub struct LimbKind<T> {
    marker: std::marker::PhantomData<T>,
}

impl<T> LimbKind<T> {
    pub fn new() -> Self {
        LimbKind { marker: std::marker::PhantomData }
    }
}

impl<T: Limb> LimbFactory for LimbKind<T> {
    type Output = T;

    open spec fn builds_as(&self, config: ConfigRecord, result: Option<T>) -> bool {
        T::builds_as(config, result)
    }

    fn build(&self, config: &ConfigRecord) -> (r: Option<T>) {
        T::from_json(config)
    }
}

/// The names of a sequence of named items.
pub open spec fn names_of<T>(s: Seq<(String, T)>) -> Seq<Seq<char>> {
    s.map_values(|e: (String, T)| e.0@)
}

/// Finds `name` among the names of `items`.
fn find_name<T>(items: &Vec<(String, T)>, name: &str) -> (r: Option<usize>)
    ensures
        match r {
            Some(i) => i < items@.len() && names_of(items@)[i as int] == name@,
            None => !names_of(items@).contains(name@),
        },
{
    let mut i: usize = 0;
    while i < items.len()
        invariant
            i <= items@.len(),
            forall|j: int| 0 <= j < i ==> names_of(items@)[j] != name@,
        decreases items@.len() - i,
    {
        if same_text(items[i].0.as_str(), name) {
            return Some(i);
        }
        i += 1;
    }
    None
}

/// The names of the items, copied.
fn copy_names<T>(items: &Vec<(String, T)>) -> (r: Vec<String>)
    ensures
        crate::text::views(r@) == names_of(items@),
{
    let mut r: Vec<String> = Vec::new();
    let mut i: usize = 0;
    while i < items.len()
        invariant
            i <= items@.len(),
            crate::text::views(r@) == names_of(items@).take(i as int),
        decreases items@.len() - i,
    {
        let name = items[i].0.clone();
        proof {
            assert(names_of(items@).take(i + 1) =~= names_of(items@).take(i as int).push(name@));
            assert(crate::text::views(r@.push(name)) =~= crate::text::views(r@).push(name@));
        }
        r.push(name);
        i += 1;
    }
    proof {
        assert(names_of(items@).take(i as int) =~= names_of(items@));
    }
    r
}

/// The names that registering `names` one after another leaves: each once, in the
/// order of its first registration.
pub open spec fn registered(names: Seq<Seq<char>>) -> Seq<Seq<char>>
    decreases names.len(),
{
    if names.len() == 0 {
        Seq::empty()
    } else {
        let before = registered(names.drop_last());
        if before.contains(names.last()) {
            before
        } else {
            before.push(names.last())
        }
    }
}

/// The registry: each supported limb type under its name. Each name appears once.
pub struct LimbTypes<F> {
    kinds: Vec<(String, F)>,
}

impl<F> View for LimbTypes<F> {
    type V = Seq<Seq<char>>;

    /// The registered type names, in the order they were first registered.
    closed spec fn view(&self) -> Seq<Seq<char>> {
        names_of(self.kinds@)
    }
}

impl<F> LimbTypes<F> {
    #[verifier::type_invariant]
    closed spec fn names_distinct(&self) -> bool {
        names_of(self.kinds@).no_duplicates()
    }

    pub fn new() -> (r: Self)
        ensures
            r@ == Seq::<Seq<char>>::empty(),
    {
        let r = LimbTypes { kinds: Vec::new() };
        proof {
            assert(names_of(r.kinds@) =~= Seq::<Seq<char>>::empty());
        }
        r
    }

    /// Registers `factory` under `name`, in place of any factory already under that name.
    pub fn register(&mut self, name: String, factory: F)
        ensures
            final(self)@ == if old(self)@.contains(name@) {
                old(self)@
            } else {
                old(self)@.push(name@)
            },
    {
        let mut taken = LimbTypes::new();
        std::mem::swap(self, &mut taken);
        proof {
            use_type_invariant(&taken);
        }
        let mut kinds = taken.kinds;
        let ghost before = kinds@;
        match find_name(&kinds, name.as_str()) {
            Some(i) => {
                kinds.set(i, (name, factory));
                proof {
                    assert(names_of(kinds@) =~= names_of(before));
                }
            },
            None => {
                kinds.push((name, factory));
                proof {
                    assert(names_of(kinds@) =~= names_of(before).push(name@));
                }
            },
        }
        *self = LimbTypes { kinds };
    }

    /// The registry that registering each of `kinds` in turn leaves.
    pub fn from(kinds: Vec<(String, F)>) -> (r: Self)
        ensures
            r@ == registered(names_of(kinds@)),
    {
        let ghost all = kinds@;
        let mut types = LimbTypes::new();
        for entry in it: kinds
            invariant
                it.seq() == all,
                types@ == registered(names_of(all.take(it.index() as int))),
        {
            let ghost i = it.index() as int;
            proof {
                assert(names_of(all.take(i + 1)).drop_last() =~= names_of(all.take(i)));
            }
            let (name, factory) = entry;
            types.register(name, factory);
        }
        proof {
            assert(all.take(all.len() as int) =~= all);
        }
        types
    }

    /// The registered type names.
    pub fn names(&self) -> (r: Vec<String>)
        ensures
            crate::text::views(r@) == self@,
    {
        copy_names(&self.kinds)
    }

    /// The factory registered under `kind`, where one is.
    pub closed spec fn factory_for(&self, kind: Seq<char>) -> F {
        let i = choose|i: int| 0 <= i < self.kinds@.len() && #[trigger] names_of(self.kinds@)[i] == kind;
        self.kinds@[i].1
    }

    /// Whether a type is registered under `kind`.
    pub fn contains(&self, kind: &str) -> (r: bool)
        ensures
            r == self@.contains(kind@),
    {
        find_name(&self.kinds, kind).is_some()
    }
}

impl<F: LimbFactory> LimbTypes<F> {
    /// Builds a limb from `config` with the factory registered under `kind`: nothing
    /// where no type is registered under that name.
    pub fn resolve(&self, kind: &str, config: &ConfigRecord) -> (r: Option<F::Output>)
        ensures
            !self@.contains(kind@) ==> r is None,
            self@.contains(kind@) ==> self.factory_for(kind@).builds_as(*config, r),
    {
        proof {
            use_type_invariant(self);
        }
        match find_name(&self.kinds, kind) {
            Some(i) => {
                proof {
                    let j = choose|j: int| 0 <= j < self.kinds@.len() && #[trigger] names_of(self.kinds@)[j] == kind@;
                    assert(names_of(self.kinds@)[i as int] == kind@);
                    assert(j == i);
                }
                self.kinds[i].1.build(config)
            },
            None => None,
        }
    }
}

/// The instance names of a document, in order.
pub open spec fn document_names(d: DocumentView) -> Seq<Seq<char>> {
    d.map_values(|e: (Seq<char>, RecordView)| e.0)
}

/// The type an entry's record names.
pub open spec fn entry_type(record: RecordView) -> Option<Seq<char>> {
    text_field(record, "type"@)
}

/// Every entry of the document names its type with a text.
pub open spec fn every_entry_typed(d: DocumentView) -> bool {
    forall|i: int| 0 <= i < d.len() ==> (#[trigger] entry_type(d[i].1)) is Some
}

/// Every entry of the document names a registered type.
pub open spec fn every_type_registered(d: DocumentView, types: Seq<Seq<char>>) -> bool {
    forall|i: int| 0 <= i < d.len() ==> types.contains(#[trigger] entry_type(d[i].1)->0)
}

/// No two entries of the document share an instance name.
pub open spec fn names_distinct_in(d: DocumentView) -> bool {
    document_names(d).no_duplicates()
}

/// The error that a document and the registry alone decide, if any.
pub open spec fn spec_document_error(d: DocumentView, types: Seq<Seq<char>>) -> Option<ConfigError> {
    if !names_distinct_in(d) || !every_entry_typed(d) {
        Some(ConfigError::MalformedDocument)
    } else if !every_type_registered(d, types) {
        Some(ConfigError::UnknownType)
    } else {
        None
    }
}

/// The textual "init" value of a record, as the record holds it.
pub open spec fn init_of(record: ConfigRecord) -> Option<String> {
    crate::config::text_value(record.fields@, "init"@)
}

/// `limb` is what the factory of the record's type built from `record`, then written
/// with the record's "init" text where it has one.
pub open spec fn entry_built<F: LimbFactory>(types: LimbTypes<F>, record: ConfigRecord, limb: F::Output) -> bool {
    let factory = types.factory_for(entry_type(record@)->0);
    match init_of(record) {
        None => factory.builds_as(record, Some(limb)),
        Some(init) => exists|built: F::Output|
            #[trigger] factory.builds_as(record, Some(built)) && built.writes_as(init, limb, Ok(())),
    }
}

/// The factory of the record's type may refuse `record`, or the limb it builds may
/// refuse the record's "init" text.
pub open spec fn entry_refused<F: LimbFactory>(types: LimbTypes<F>, record: ConfigRecord) -> bool {
    let factory = types.factory_for(entry_type(record@)->0);
    factory.builds_as(record, None) || (init_of(record) is Some && exists|built: F::Output, after: F::Output, e: Error|
        factory.builds_as(record, Some(built)) && #[trigger] built.writes_as(init_of(record)->0, after, Err(e)))
}

/// Whether some two entries of the document share an instance name.
fn repeats_a_name(doc: &Vec<(String, ConfigRecord)>) -> (r: bool)
    ensures
        r == !names_distinct_in(crate::config::document_view(doc@)),
{
    let ghost names = document_names(crate::config::document_view(doc@));
    let mut i: usize = 0;
    while i < doc.len()
        invariant
            i <= doc@.len(),
            names == document_names(crate::config::document_view(doc@)),
            forall|a: int, b: int| 0 <= a < i && a < b < doc@.len() ==> names[a] != names[b],
        decreases doc@.len() - i,
    {
        let mut j: usize = i + 1;
        while j < doc.len()
            invariant
                i < doc@.len(),
                i < j <= doc@.len(),
                names == document_names(crate::config::document_view(doc@)),
                forall|a: int, b: int| 0 <= a < i && a < b < doc@.len() ==> names[a] != names[b],
                forall|b: int| i < b < j ==> names[i as int] != names[b],
            decreases doc@.len() - j,
        {
            if same_text(doc[i].0.as_str(), doc[j].0.as_str()) {
                proof {
                    assert(names[i as int] == names[j as int]);
                }
                return true;
            }
            j += 1;
        }
        i += 1;
    }
    proof {
        assert(names.no_duplicates());
    }
    false
}

/// The table of live limbs, each under its instance name. Each name appears once.
pub struct LimbBindings<L> {
    limbs: Vec<(String, L)>,
}

impl<L> View for LimbBindings<L> {
    type V = Seq<Seq<char>>;

    /// The instance names, in table order.
    closed spec fn view(&self) -> Seq<Seq<char>> {
        names_of(self.limbs@)
    }
}

impl<L> LimbBindings<L> {
    #[verifier::type_invariant]
    closed spec fn names_distinct(&self) -> bool {
        names_of(self.limbs@).no_duplicates()
    }

    /// The bound limbs, in table order: the one under the name `self@[i]` is `self.bound()[i]`.
    pub closed spec fn bound(&self) -> Seq<L> {
        self.limbs@.map_values(|e: (String, L)| e.1)
    }

    pub fn new() -> (r: Self)
        ensures
            r@ == Seq::<Seq<char>>::empty(),
            r.bound() == Seq::<L>::empty(),
    {
        let r = LimbBindings { limbs: Vec::new() };
        proof {
            assert(names_of(r.limbs@) =~= Seq::<Seq<char>>::empty());
            assert(r.bound() =~= Seq::<L>::empty());
        }
        r
    }

    pub fn clear(&mut self)
        ensures
            final(self)@ == Seq::<Seq<char>>::empty(),
            final(self).bound() == Seq::<L>::empty(),
    {
        *self = LimbBindings::new();
    }

    pub fn len(&self) -> (r: usize)
        ensures
            r == self@.len(),
            r == self.bound().len(),
    {
        self.limbs.len()
    }

    /// The instance names.
    pub fn names(&self) -> (r: Vec<String>)
        ensures
            crate::text::views(r@) == self@,
    {
        copy_names(&self.limbs)
    }

    /// Whether a limb is bound under `name`.
    pub fn contains(&self, name: &str) -> (r: bool)
        ensures
            r == self@.contains(name@),
    {
        find_name(&self.limbs, name).is_some()
    }

    /// The limb under `name`.
    pub fn get(&self, name: &str) -> (r: Option<&L>)
        ensures
            r is Some <==> self@.contains(name@),
            forall|i: int| 0 <= i < self@.len() && self@[i] == name@ ==> *r->0 == #[trigger] self.bound()[i],
    {
        proof {
            use_type_invariant(self);
        }
        match find_name(&self.limbs, name) {
            Some(i) => Some(&self.limbs[i].1),
            None => None,
        }
    }

    /// The table with `limb` added under `name`, unless its factory refused the record
    /// (`built` is none) or it refused its "init" value (`init_result` is an error).
    pub fn bind_built(self, name: String, built: Option<L>, init_result: Option<Result<(), Error>>) -> (r: Result<Self, ConfigError>)
        requires
            !self@.contains(name@),
        ensures
            r is Err <==> (built is None || (init_result is Some && init_result->0 is Err)),
            r is Err ==> r->Err_0 == ConfigError::FactoryRejected,
            r is Ok ==> r->Ok_0@ == self@.push(name@) && r->Ok_0.bound() == self.bound().push(built->0),
    {
        proof {
            use_type_invariant(&self);
        }
        let limb = match built {
            Some(l) => l,
            None => return Err(ConfigError::FactoryRejected),
        };
        match init_result {
            Some(Err(_)) => return Err(ConfigError::FactoryRejected),
            _ => {},
        }
        let mut limbs = self.limbs;
        let ghost before = limbs@;
        limbs.push((name, limb));
        proof {
            assert(names_of(limbs@) =~= names_of(before).push(name@));
            assert(limbs@.map_values(|e: (String, L)| e.1) =~= before.map_values(|e: (String, L)| e.1).push(limb));
        }
        Ok(LimbBindings { limbs })
    }
}

impl<L: Limb> LimbBindings<L> {
    /// Writes `value` to the limb under `name`: nothing where no limb has that name,
    /// else what the limb's `set` returned. The other limbs are not touched.
    pub fn set_value(&mut self, name: &str, value: String) -> (r: Option<Result<(), Error>>)
        ensures
            final(self)@ == old(self)@,
            final(self).bound().len() == old(self).bound().len(),
            r is Some <==> old(self)@.contains(name@),
            r is None ==> *final(self) == *old(self),
            forall|i: int| 0 <= i < old(self)@.len() && old(self)@[i] != name@
                ==> #[trigger] final(self).bound()[i] == old(self).bound()[i],
            forall|i: int| 0 <= i < old(self)@.len() && old(self)@[i] == name@
                ==> old(self).bound()[i].writes_as(value, #[trigger] final(self).bound()[i], r->0),
    {
        proof {
            use_type_invariant(&*self);
        }
        match find_name(&self.limbs, name) {
            Some(i) => {
                let mut taken = LimbBindings::new();
                std::mem::swap(self, &mut taken);
                let mut limbs = taken.limbs;
                let ghost before = limbs@;
                let (n, mut limb) = limbs.remove(i);
                let r = limb.set(value);
                limbs.insert(i, (n, limb));
                proof {
                    assert(limbs@ =~= before.update(i as int, (n, limb)));
                    assert(names_of(limbs@) =~= names_of(before));
                }
                *self = LimbBindings { limbs };
                Some(r)
            },
            None => None,
        }
    }

    /// Reads the limb under `name`: nothing where no limb has that name, else what the
    /// limb's `get` returned. The other limbs are not touched.
    pub fn get_value(&mut self, name: &str) -> (r: Option<Result<String, Error>>)
        ensures
            final(self)@ == old(self)@,
            final(self).bound().len() == old(self).bound().len(),
            r is Some <==> old(self)@.contains(name@),
            r is None ==> *final(self) == *old(self),
            forall|i: int| 0 <= i < old(self)@.len() && old(self)@[i] != name@
                ==> #[trigger] final(self).bound()[i] == old(self).bound()[i],
            forall|i: int| 0 <= i < old(self)@.len() && old(self)@[i] == name@
                ==> old(self).bound()[i].reads_as(#[trigger] final(self).bound()[i], r->0),
    {
        proof {
            use_type_invariant(&*self);
        }
        match find_name(&self.limbs, name) {
            Some(i) => {
                let mut taken = LimbBindings::new();
                std::mem::swap(self, &mut taken);
                let mut limbs = taken.limbs;
                let ghost before = limbs@;
                let (n, mut limb) = limbs.remove(i);
                let r = limb.get();
                limbs.insert(i, (n, limb));
                proof {
                    assert(limbs@ =~= before.update(i as int, (n, limb)));
                    assert(names_of(limbs@) =~= names_of(before));
                }
                *self = LimbBindings { limbs };
                Some(r)
            },
            None => None,
        }
    }

    /// Each instance name with the type name of its limb, in table order.
    pub fn kinds(&self) -> (r: Vec<(String, &'static str)>)
        ensures
            r@.len() == self@.len(),
            forall|i: int| 0 <= i < r@.len() ==> (#[trigger] r@[i]).0@ == self@[i],
    {
        let mut r: Vec<(String, &'static str)> = Vec::new();
        let mut i: usize = 0;
        while i < self.limbs.len()
            invariant
                i <= self.limbs@.len(),
                r@.len() == i,
                forall|j: int| 0 <= j < i ==> (#[trigger] r@[j]).0@ == names_of(self.limbs@)[j],
            decreases self.limbs@.len() - i,
        {
            r.push((self.limbs[i].0.clone(), self.limbs[i].1.kind_name()));
            i += 1;
        }
        r
    }

    /// Builds the table that a configuration document's text describes (see
    /// [`LimbBindings::from_document`]); a text that is not a JSON object of objects
    /// is malformed.
    pub fn from_json<F: LimbFactory<Output = L>>(json: &str, types: &LimbTypes<F>) -> (r: Result<Self, ConfigError>)
        ensures
            match json_document(json@) {
                None => r == Err::<Self, ConfigError>(ConfigError::MalformedDocument),
                Some(doc) => built_from(doc, *types, r),
            },
    {
        match parse_json_document(json) {
            Some(doc) => Self::from_document(doc, types),
            None => Err(ConfigError::MalformedDocument),
        }
    }

    /// Builds the table that a configuration document describes. The document's
    /// entries are checked first (distinct names, each naming a registered type),
    /// then each limb is built by the factory of its type from its own record and,
    /// where that record holds a textual "init", written with it. Nothing is
    /// returned unless every entry succeeds.
    pub fn from_document<F: LimbFactory<Output = L>>(doc: Vec<(String, ConfigRecord)>, types: &LimbTypes<F>) -> (r: Result<Self, ConfigError>)
        ensures
            built_from(doc, *types, r),
    {
        if repeats_a_name(&doc) {
            return Err(ConfigError::MalformedDocument);
        }
        let ghost d = crate::config::document_view(doc@);
        let mut i: usize = 0;
        while i < doc.len()
            invariant
                i <= doc@.len(),
                d == crate::config::document_view(doc@),
                names_distinct_in(d),
                forall|j: int| 0 <= j < i ==> (#[trigger] entry_type(d[j].1)) is Some,
            decreases doc@.len() - i,
        {
            if doc[i].1.text("type").is_none() {
                proof {
                    assert(entry_type(d[i as int].1) is None);
                }
                return Err(ConfigError::MalformedDocument);
            }
            i += 1;
        }
        let mut i: usize = 0;
        while i < doc.len()
            invariant
                i <= doc@.len(),
                d == crate::config::document_view(doc@),
                names_distinct_in(d),
                every_entry_typed(d),
                forall|j: int| 0 <= j < i ==> types@.contains(#[trigger] entry_type(d[j].1)->0),
            decreases doc@.len() - i,
        {
            match doc[i].1.text("type") {
                Some(kind) => if !types.contains(kind) {
                    proof {
                        assert(!types@.contains(entry_type(d[i as int].1)->0));
                    }
                    return Err(ConfigError::UnknownType);
                },
                None => {},
            }
            i += 1;
        }
        let mut table: LimbBindings<L> = LimbBindings::new();
        let mut i: usize = 0;
        while i < doc.len()
            invariant
                i <= doc@.len(),
                d == crate::config::document_view(doc@),
                names_distinct_in(d),
                every_entry_typed(d),
                every_type_registered(d, types@),
                table@ == document_names(d).take(i as int),
                table.bound().len() == i,
                forall|j: int| 0 <= j < i ==> entry_built(*types, doc@[j].1, #[trigger] table.bound()[j]),
            decreases doc@.len() - i,
        {
            let record = &doc[i].1;
            let ghost factory = types.factory_for(entry_type(record@)->0);
            proof {
                assert(*record == doc@[i as int].1);
                assert(d[i as int].1 == record@);
                assert(entry_type(d[i as int].1) is Some);
                assert(types@.contains(entry_type(d[i as int].1)->0));
            }
            let built = match record.text("type") {
                Some(kind) => types.resolve(kind, record),
                None => None,
            };
            proof {
                assert(factory.builds_as(*record, built));
            }
            let ghost first = built;
            let (built, init_result) = match built {
                Some(limb) => match record.text_value("init") {
                    Some(init) => {
                        let mut limb = limb;
                        let value = init.clone();
                        let r = limb.set(value);
                        proof {
                            assert(init_of(*record) == Some(value));
                            assert(first->0.writes_as(value, limb, r));
                        }
                        (Some(limb), Some(r))
                    },
                    None => {
                        proof {
                            assert(init_of(*record) is None);
                        }
                        (Some(limb), None)
                    },
                },
                None => (None, None),
            };
            proof {
                if first is Some && init_of(*record) is Some {
                    assert(init_result is Some);
                    assert(first->0.writes_as(init_of(*record)->0, built->0, init_result->0));
                }
                if first is Some && init_of(*record) is None {
                    assert(built == first && init_result is None);
                }
                if first is None {
                    assert(built is None);
                }
            }
            let name = doc[i].0.clone();
            proof {
                assert(document_names(d).take(i + 1) =~= document_names(d).take(i as int).push(name@));
                assert(!table@.contains(name@)) by {
                    assert(document_names(d)[i as int] == name@);
                    if table@.contains(name@) {
                        let j = choose|j: int| 0 <= j < table@.len() && table@[j] == name@;
                        assert(document_names(d)[j] == name@);
                    }
                }
            }
            let ghost old_bound = table.bound();
            let ghost g_built = built;
            let ghost g_init = init_result;
            table = match table.bind_built(name, built, init_result) {
                Ok(t) => t,
                Err(e) => {
                    proof {
                        if first is Some {
                            let e = g_init->0->Err_0;
                            assert(first->0.writes_as(init_of(*record)->0, g_built->0, Err(e)));
                        }
                        assert(entry_refused(*types, doc@[i as int].1));
                    }
                    return Err(e);
                },
            };
            proof {
                assert(forall|j: int| 0 <= j < i ==> table.bound()[j] == old_bound[j]);
                assert(table.bound()[i as int] == g_built->0);
                if init_of(*record) is Some {
                    assert(g_built is Some);
                    assert(first is Some);
                    assert(g_init is Some);
                    assert(g_init->0 is Ok);
                    let u = g_init->0->Ok_0;
                    assert(u == ());
                    assert(g_init->0 =~= Ok::<(), Error>(()));
                    assert(factory.builds_as(*record, Some(first->0)));
                    assert(first->0.writes_as(init_of(*record)->0, table.bound()[i as int], Ok(())));
                }
                assert(entry_built(*types, doc@[i as int].1, table.bound()[i as int]));
            }
            i += 1;
        }
        proof {
            assert(document_names(d).take(i as int) =~= document_names(d));
        }
        Ok(table)
    }
}

/// What building a table from `doc` with `types` may give: the document's own error
/// where it has one; else either the table with the document's names in order, each
/// bound to what its entry built, or a refusal by some entry's factory or limb.
/// An empty document always gives the empty table.
pub open spec fn built_from<F: LimbFactory>(
    doc: Vec<(String, ConfigRecord)>,
    types: LimbTypes<F>,
    r: Result<LimbBindings<F::Output>, ConfigError>,
) -> bool {
    let d = crate::config::document_view(doc@);
    match spec_document_error(d, types@) {
        Some(e) => r == Err::<LimbBindings<F::Output>, ConfigError>(e),
        None => match r {
            Ok(table) => table@ == document_names(d) && table.bound().len() == doc@.len()
                && forall|i: int| 0 <= i < doc@.len() ==> entry_built(types, doc@[i].1, #[trigger] table.bound()[i]),
            Err(e) => e == ConfigError::FactoryRejected
                && exists|i: int| 0 <= i < doc@.len() && entry_refused(types, #[trigger] doc@[i].1),
        },
    }
}

} // verus!
