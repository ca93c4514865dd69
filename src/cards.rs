//! Cards: an identifier, a name and a description, in a green and a red kind.

use vstd::prelude::*;

verus! {

/// Identifier for any card variant.
#[derive(Clone, Copy, Debug, PartialEq, Eq, PartialOrd, Ord, Hash, Structural)]
pub struct CardId(usize);

impl View for CardId {
    type V = usize;

    closed spec fn view(&self) -> usize {
        self.0
    }
}

impl CardId {
    /// The identifier with value `id`.
    pub fn new(id: usize) -> (r: CardId)
        ensures
            r@ == id,
    {
        CardId(id)
    }

    /// The inner value.
    pub fn value(self) -> (r: usize)
        ensures
            r == self@,
    {
        self.0
    }
}

impl From<u32> for CardId {
    fn from(id: u32) -> (r: CardId)
        ensures
            r@ == id as usize,
    {
        CardId::new(id as usize)
    }
}

impl vstd::std_specs::convert::FromSpecImpl<u32> for CardId {
    open spec fn obeys_from_spec() -> bool {
        true
    }

    closed spec fn from_spec(id: u32) -> CardId {
        CardId(id as usize)
    }
}

impl From<usize> for CardId {
    fn from(id: usize) -> (r: CardId)
        ensures
            r@ == id,
    {
        CardId::new(id)
    }
}

impl vstd::std_specs::convert::FromSpecImpl<usize> for CardId {
    open spec fn obeys_from_spec() -> bool {
        true
    }

    closed spec fn from_spec(id: usize) -> CardId {
        CardId(id)
    }
}

impl From<CardId> for usize {
    fn from(id: CardId) -> (r: usize)
        ensures
            r == id@,
    {
        id.value()
    }
}

impl vstd::std_specs::convert::FromSpecImpl<CardId> for usize {
    open spec fn obeys_from_spec() -> bool {
        true
    }

    closed spec fn from_spec(id: CardId) -> usize {
        id.0
    }
}

/// What a card is: its identifier, name and description.
pub struct CardView {
    pub id: usize,
    pub name: Seq<char>,
    pub description: Seq<char>,
}

/// Behaviour shared by all card variants.
pub trait Card: Sized + Clone + View<V = CardView> {
    /// The card's identifier.
    fn id(&self) -> (r: CardId)
        ensures
            r@ == self@.id,
    ;

    /// The card's name.
    fn name(&self) -> (r: &str)
        ensures
            r@ == self@.name,
    ;

    /// The card's description.
    fn description(&self) -> (r: &str)
        ensures
            r@ == self@.description,
    ;

    /// The card of this variant made from shared card data.
    fn from_base(base: BaseCard) -> (r: Self)
        ensures
            r@ == base@,
    ;

    /// A clone is the same card.
    proof fn lemma_clone_same(a: Self, b: Self)
        requires
            cloned(a, b),
        ensures
            a@ == b@,
    ;
}

/// Data shared by the concrete card variants.
#[derive(Debug, PartialEq, Eq, Hash)]
pub struct BaseCard {
    id: CardId,
    name: String,
    description: String,
}

impl View for BaseCard {
    type V = CardView;

    closed spec fn view(&self) -> CardView {
        CardView { id: self.id@, name: self.name@, description: self.description@ }
    }
}

impl Clone for BaseCard {
    fn clone(&self) -> (r: BaseCard)
        ensures
            r@ == self@,
    {
        BaseCard { id: self.id, name: self.name.clone(), description: self.description.clone() }
    }
}

impl BaseCard {
    /// A card with the given identifier, name and description.
    pub fn new(id: CardId, name: String, description: String) -> (r: BaseCard)
        ensures
            r@ == (CardView { id: id@, name: name@, description: description@ }),
    {
        BaseCard { id, name, description }
    }

    /// The card's identifier.
    pub fn id(&self) -> (r: CardId)
        ensures
            r@ == self@.id,
    {
        self.id
    }

    /// The card's name.
    pub fn name(&self) -> (r: &str)
        ensures
            r@ == self@.name,
    {
        self.name.as_str()
    }

    /// The card's description.
    pub fn description(&self) -> (r: &str)
        ensures
            r@ == self@.description,
    {
        self.description.as_str()
    }
}

impl Card for BaseCard {
    fn from_base(base: BaseCard) -> (r: BaseCard) {
        base
    }

    fn id(&self) -> (r: CardId) {
        BaseCard::id(self)
    }

    fn name(&self) -> (r: &str) {
        BaseCard::name(self)
    }

    fn description(&self) -> (r: &str) {
        BaseCard::description(self)
    }

    proof fn lemma_clone_same(a: Self, b: Self) {
    }
}

/// A green card (an adjective card, in the game's terms).
#[derive(Debug, PartialEq, Eq, Hash)]
pub struct GreenCard(BaseCard);

impl View for GreenCard {
    type V = CardView;

    closed spec fn view(&self) -> CardView {
        self.0@
    }
}

impl Clone for GreenCard {
    fn clone(&self) -> (r: GreenCard)
        ensures
            r@ == self@,
    {
        GreenCard(self.0.clone())
    }
}

impl GreenCard {
    /// A green card with the given identifier, name and description.
    pub fn new(id: CardId, name: String, description: String) -> (r: GreenCard)
        ensures
            r@ == (CardView { id: id@, name: name@, description: description@ }),
    {
        GreenCard(BaseCard::new(id, name, description))
    }

    /// The shared card data.
    pub fn base(&self) -> (r: &BaseCard)
        ensures
            r@ == self@,
    {
        &self.0
    }
}

impl Card for GreenCard {
    fn from_base(base: BaseCard) -> (r: GreenCard) {
        GreenCard(base)
    }

    fn id(&self) -> (r: CardId) {
        self.0.id()
    }

    fn name(&self) -> (r: &str) {
        self.0.name()
    }

    fn description(&self) -> (r: &str) {
        self.0.description()
    }

    proof fn lemma_clone_same(a: Self, b: Self) {
    }
}

impl From<BaseCard> for GreenCard {
    fn from(base: BaseCard) -> (r: GreenCard)
        ensures
            r@ == base@,
    {
        GreenCard(base)
    }
}

impl vstd::std_specs::convert::FromSpecImpl<BaseCard> for GreenCard {
    open spec fn obeys_from_spec() -> bool {
        true
    }

    closed spec fn from_spec(base: BaseCard) -> GreenCard {
        GreenCard(base)
    }
}

/// A red card (a noun card, in the game's terms).
#[derive(Debug, PartialEq, Eq, Hash)]
pub struct RedCard(BaseCard);

impl View for RedCard {
    type V = CardView;

    closed spec fn view(&self) -> CardView {
        self.0@
    }
}

impl Clone for RedCard {
    fn clone(&self) -> (r: RedCard)
        ensures
            r@ == self@,
    {
        RedCard(self.0.clone())
    }
}

impl RedCard {
    /// A red card with the given identifier, name and description.
    pub fn new(id: CardId, name: String, description: String) -> (r: RedCard)
        ensures
            r@ == (CardView { id: id@, name: name@, description: description@ }),
    {
        RedCard(BaseCard::new(id, name, description))
    }

    /// The shared card data.
    pub fn base(&self) -> (r: &BaseCard)
        ensures
            r@ == self@,
    {
        &self.0
    }
}

impl Card for RedCard {
    fn from_base(base: BaseCard) -> (r: RedCard) {
        RedCard(base)
    }

    fn id(&self) -> (r: CardId) {
        self.0.id()
    }

    fn name(&self) -> (r: &str) {
        self.0.name()
    }

    fn description(&self) -> (r: &str) {
        self.0.description()
    }

    proof fn lemma_clone_same(a: Self, b: Self) {
    }
}

impl From<BaseCard> for RedCard {
    fn from(base: BaseCard) -> (r: RedCard)
        ensures
            r@ == base@,
    {
        RedCard(base)
    }
}

impl vstd::std_specs::convert::FromSpecImpl<BaseCard> for RedCard {
    open spec fn obeys_from_spec() -> bool {
        true
    }

    closed spec fn from_spec(base: BaseCard) -> RedCard {
        RedCard(base)
    }
}

} // verus!
