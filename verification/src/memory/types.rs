//! The layout of the values that the game keeps in memory.
//!
//! Each type lists the fields that are known, with the offsets that the game gives them; the
//! bytes between them are skipped.

use crate::memory::{lemma_slice_len, Memory, Pod};
use vstd::prelude::*;

verus! {

/// An array of the game: where its elements lie, how many it has room for, and how many it
/// holds.
#[derive(Clone, Copy, Debug, PartialEq, Eq)]
pub struct AnetArray {
    pub data: u64,
    pub cap: u32,
    pub len: u32,
}

impl Pod for AnetArray {
    open spec fn size() -> nat {
        16
    }

    open spec fn align() -> nat {
        8
    }

    open spec fn parse(bytes: Seq<u8>) -> AnetArray {
        AnetArray {
            data: u64::parse(bytes.subrange(0, 8)),
            cap: u32::parse(bytes.subrange(8, 12)),
            len: u32::parse(bytes.subrange(12, 16)),
        }
    }

    fn size_of() -> (n: usize) {
        16
    }

    fn align_of() -> (n: usize) {
        8
    }

    fn read(bytes: &[u8], offset: usize) -> (r: AnetArray) {
        proof {
            lemma_slice_len(bytes);
            let whole = bytes@.subrange(offset as int, offset + 16);
            assert(whole.subrange(0, 8) =~= bytes@.subrange(offset + 0, offset + 8));
            assert(whole.subrange(8, 12) =~= bytes@.subrange(offset + 8, offset + 12));
            assert(whole.subrange(12, 16) =~= bytes@.subrange(offset + 12, offset + 16));
        }
        AnetArray {
            data: u64::read(bytes, offset),
            cap: u32::read(bytes, offset + 8),
            len: u32::read(bytes, offset + 12),
        }
    }
}

/// A hash table of the game: how many entries it has room for, how many it holds, and where
/// they lie.
#[derive(Clone, Copy, Debug, PartialEq, Eq)]
pub struct AnetHashTable {
    pub cap: u32,
    pub len: u32,
    pub data: u64,
}

impl Pod for AnetHashTable {
    open spec fn size() -> nat {
        16
    }

    open spec fn align() -> nat {
        8
    }

    open spec fn parse(bytes: Seq<u8>) -> AnetHashTable {
        AnetHashTable {
            cap: u32::parse(bytes.subrange(0, 4)),
            len: u32::parse(bytes.subrange(4, 8)),
            data: u64::parse(bytes.subrange(8, 16)),
        }
    }

    fn size_of() -> (n: usize) {
        16
    }

    fn align_of() -> (n: usize) {
        8
    }

    fn read(bytes: &[u8], offset: usize) -> (r: AnetHashTable) {
        proof {
            lemma_slice_len(bytes);
            let whole = bytes@.subrange(offset as int, offset + 16);
            assert(whole.subrange(0, 4) =~= bytes@.subrange(offset + 0, offset + 4));
            assert(whole.subrange(4, 8) =~= bytes@.subrange(offset + 4, offset + 8));
            assert(whole.subrange(8, 16) =~= bytes@.subrange(offset + 8, offset + 16));
        }
        AnetHashTable {
            cap: u32::read(bytes, offset),
            len: u32::read(bytes, offset + 4),
            data: u64::read(bytes, offset + 8),
        }
    }
}

/// A character.
#[derive(Clone, Copy, Debug, PartialEq, Eq)]
pub struct Character {
    pub vtable0: u64,
    pub vtable1: u64,
    /// Address of the inventory.
    pub inventory: u64,
    /// Address of the wallet.
    pub wallet: u64,
}

impl Pod for Character {
    open spec fn size() -> nat {
        48
    }

    open spec fn align() -> nat {
        8
    }

    open spec fn parse(bytes: Seq<u8>) -> Character {
        Character {
            vtable0: u64::parse(bytes.subrange(0, 8)),
            vtable1: u64::parse(bytes.subrange(8, 16)),
            inventory: u64::parse(bytes.subrange(32, 40)),
            wallet: u64::parse(bytes.subrange(40, 48)),
        }
    }

    fn size_of() -> (n: usize) {
        48
    }

    fn align_of() -> (n: usize) {
        8
    }

    fn read(bytes: &[u8], offset: usize) -> (r: Character) {
        proof {
            lemma_slice_len(bytes);
            let whole = bytes@.subrange(offset as int, offset + 48);
            assert(whole.subrange(0, 8) =~= bytes@.subrange(offset + 0, offset + 8));
            assert(whole.subrange(8, 16) =~= bytes@.subrange(offset + 8, offset + 16));
            assert(whole.subrange(32, 40) =~= bytes@.subrange(offset + 32, offset + 40));
            assert(whole.subrange(40, 48) =~= bytes@.subrange(offset + 40, offset + 48));
        }
        Character {
            vtable0: u64::read(bytes, offset),
            vtable1: u64::read(bytes, offset + 8),
            inventory: u64::read(bytes, offset + 32),
            wallet: u64::read(bytes, offset + 40),
        }
    }
}

/// The wallet of a character.
#[derive(Clone, Copy, Debug, PartialEq, Eq)]
pub struct CharWallet {
    pub vtable: u64,
    pub entries: AnetHashTable,
}

impl Pod for CharWallet {
    open spec fn size() -> nat {
        24
    }

    open spec fn align() -> nat {
        8
    }

    open spec fn parse(bytes: Seq<u8>) -> CharWallet {
        CharWallet {
            vtable: u64::parse(bytes.subrange(0, 8)),
            entries: AnetHashTable::parse(bytes.subrange(8, 24)),
        }
    }

    fn size_of() -> (n: usize) {
        24
    }

    fn align_of() -> (n: usize) {
        8
    }

    fn read(bytes: &[u8], offset: usize) -> (r: CharWallet) {
        proof {
            lemma_slice_len(bytes);
            let whole = bytes@.subrange(offset as int, offset + 24);
            assert(whole.subrange(0, 8) =~= bytes@.subrange(offset + 0, offset + 8));
            assert(whole.subrange(8, 24) =~= bytes@.subrange(offset + 8, offset + 24));
        }
        CharWallet {
            vtable: u64::read(bytes, offset),
            entries: AnetHashTable::read(bytes, offset + 8),
        }
    }
}

/// An entry of the hash table of a wallet.
#[derive(Clone, Copy, Debug, PartialEq, Eq)]
pub struct WalletEntry {
    pub currency_id: u32,
    pub amount: u32,
    pub hash: u32,
}

impl Pod for WalletEntry {
    open spec fn size() -> nat {
        12
    }

    open spec fn align() -> nat {
        4
    }

    open spec fn parse(bytes: Seq<u8>) -> WalletEntry {
        WalletEntry {
            currency_id: u32::parse(bytes.subrange(0, 4)),
            amount: u32::parse(bytes.subrange(4, 8)),
            hash: u32::parse(bytes.subrange(8, 12)),
        }
    }

    fn size_of() -> (n: usize) {
        12
    }

    fn align_of() -> (n: usize) {
        4
    }

    fn read(bytes: &[u8], offset: usize) -> (r: WalletEntry) {
        proof {
            lemma_slice_len(bytes);
            let whole = bytes@.subrange(offset as int, offset + 12);
            assert(whole.subrange(0, 4) =~= bytes@.subrange(offset + 0, offset + 4));
            assert(whole.subrange(4, 8) =~= bytes@.subrange(offset + 4, offset + 8));
            assert(whole.subrange(8, 12) =~= bytes@.subrange(offset + 8, offset + 12));
        }
        WalletEntry {
            currency_id: u32::read(bytes, offset),
            amount: u32::read(bytes, offset + 4),
            hash: u32::read(bytes, offset + 8),
        }
    }
}

/// The inventory of a character.
#[derive(Clone, Copy, Debug, PartialEq, Eq)]
pub struct CharInventory {
    /// The inventory slots: addresses of items.
    pub slots: AnetArray,
    /// The shared inventory slots.
    pub shared_slots: AnetArray,
}

impl Pod for CharInventory {
    open spec fn size() -> nat {
        280
    }

    open spec fn align() -> nat {
        8
    }

    open spec fn parse(bytes: Seq<u8>) -> CharInventory {
        CharInventory {
            slots: AnetArray::parse(bytes.subrange(200, 216)),
            shared_slots: AnetArray::parse(bytes.subrange(264, 280)),
        }
    }

    fn size_of() -> (n: usize) {
        280
    }

    fn align_of() -> (n: usize) {
        8
    }

    fn read(bytes: &[u8], offset: usize) -> (r: CharInventory) {
        proof {
            lemma_slice_len(bytes);
            let whole = bytes@.subrange(offset as int, offset + 280);
            assert(whole.subrange(200, 216) =~= bytes@.subrange(offset + 200, offset + 216));
            assert(whole.subrange(264, 280) =~= bytes@.subrange(offset + 264, offset + 280));
        }
        CharInventory {
            slots: AnetArray::read(bytes, offset + 200),
            shared_slots: AnetArray::read(bytes, offset + 264),
        }
    }
}

/// The kind of an item, as the game numbers it.
#[derive(Clone, Copy, Debug, PartialEq, Eq, Structural, Hash, Default)]
pub struct ItemType(pub u32);

impl Pod for ItemType {
    open spec fn size() -> nat {
        4
    }

    open spec fn align() -> nat {
        4
    }

    open spec fn parse(bytes: Seq<u8>) -> ItemType {
        ItemType(u32::parse(bytes.subrange(0, 4)))
    }

    fn size_of() -> (n: usize) {
        4
    }

    fn align_of() -> (n: usize) {
        4
    }

    fn read(bytes: &[u8], offset: usize) -> (r: ItemType) {
        proof {
            lemma_slice_len(bytes);
            let whole = bytes@.subrange(offset as int, offset + 4);
            assert(whole.subrange(0, 4) =~= bytes@.subrange(offset + 0, offset + 4));
        }
        ItemType(u32::read(bytes, offset))
    }
}

impl ItemType {
    pub const ARMOR: u32 = 0;

    pub const BACK: u32 = 2;

    pub const CONSUMABLE: u32 = 4;

    pub const CONTAINER: u32 = 5;

    pub const CRAFTING_MATERIAL: u32 = 6;

    pub const GATHERING: u32 = 9;

    pub const GIZMO: u32 = 10;

    pub const JADE_TECH_MODULE: u32 = 11;

    pub const TOOL: u32 = 19;

    pub const TRINKET: u32 = 21;

    pub const TROPHY: u32 = 22;

    pub const UPGRADE_COMPONENT: u32 = 23;

    pub const WEAPON: u32 = 24;
}

/// The rarity of an item, as the game numbers it.
#[derive(Clone, Copy, Debug, PartialEq, Eq, Structural, Hash, Default)]
pub struct Rarity(pub u32);

impl Pod for Rarity {
    open spec fn size() -> nat {
        4
    }

    open spec fn align() -> nat {
        4
    }

    open spec fn parse(bytes: Seq<u8>) -> Rarity {
        Rarity(u32::parse(bytes.subrange(0, 4)))
    }

    fn size_of() -> (n: usize) {
        4
    }

    fn align_of() -> (n: usize) {
        4
    }

    fn read(bytes: &[u8], offset: usize) -> (r: Rarity) {
        proof {
            lemma_slice_len(bytes);
            let whole = bytes@.subrange(offset as int, offset + 4);
            assert(whole.subrange(0, 4) =~= bytes@.subrange(offset + 0, offset + 4));
        }
        Rarity(u32::read(bytes, offset))
    }
}

impl Rarity {
    pub const BASIC: u32 = 1;

    pub const FINE: u32 = 2;

    pub const MASTERWORK: u32 = 3;

    pub const RARE: u32 = 4;

    pub const EXOTIC: u32 = 5;

    pub const ASCENDED: u32 = 6;

    pub const LEGENDARY: u32 = 7;
}

/// What an item is: its definition, shared by all items of its sort.
#[derive(Clone, Copy, Debug, PartialEq, Eq)]
pub struct ItemDef {
    pub id: u32,
    pub type_: ItemType,
    pub rarity: Rarity,
}

impl Pod for ItemDef {
    open spec fn size() -> nat {
        100
    }

    open spec fn align() -> nat {
        4
    }

    open spec fn parse(bytes: Seq<u8>) -> ItemDef {
        ItemDef {
            id: u32::parse(bytes.subrange(40, 44)),
            type_: ItemType::parse(bytes.subrange(44, 48)),
            rarity: Rarity::parse(bytes.subrange(96, 100)),
        }
    }

    fn size_of() -> (n: usize) {
        100
    }

    fn align_of() -> (n: usize) {
        4
    }

    fn read(bytes: &[u8], offset: usize) -> (r: ItemDef) {
        proof {
            lemma_slice_len(bytes);
            let whole = bytes@.subrange(offset as int, offset + 100);
            assert(whole.subrange(40, 44) =~= bytes@.subrange(offset + 40, offset + 44));
            assert(whole.subrange(44, 48) =~= bytes@.subrange(offset + 44, offset + 48));
            assert(whole.subrange(96, 100) =~= bytes@.subrange(offset + 96, offset + 100));
        }
        ItemDef {
            id: u32::read(bytes, offset + 40),
            type_: ItemType::read(bytes, offset + 44),
            rarity: Rarity::read(bytes, offset + 96),
        }
    }
}

/// An item.
#[derive(Clone, Copy, Debug, PartialEq, Eq)]
pub struct Item {
    pub vtable: u64,
    /// Address of the definition.
    pub def: u64,
}

impl Pod for Item {
    open spec fn size() -> nat {
        72
    }

    open spec fn align() -> nat {
        8
    }

    open spec fn parse(bytes: Seq<u8>) -> Item {
        Item {
            vtable: u64::parse(bytes.subrange(0, 8)),
            def: u64::parse(bytes.subrange(64, 72)),
        }
    }

    fn size_of() -> (n: usize) {
        72
    }

    fn align_of() -> (n: usize) {
        8
    }

    fn read(bytes: &[u8], offset: usize) -> (r: Item) {
        proof {
            lemma_slice_len(bytes);
            let whole = bytes@.subrange(offset as int, offset + 72);
            assert(whole.subrange(0, 8) =~= bytes@.subrange(offset + 0, offset + 8));
            assert(whole.subrange(64, 72) =~= bytes@.subrange(offset + 64, offset + 72));
        }
        Item {
            vtable: u64::read(bytes, offset),
            def: u64::read(bytes, offset + 64),
        }
    }
}

/// A consumable.
#[allow(non_camel_case_types)]
#[derive(Clone, Copy, Debug, PartialEq, Eq)]
pub struct Item_Consumable {
    pub base: Item,
    /// Number of items in the stack.
    pub count: u8,
}

impl Pod for Item_Consumable {
    open spec fn size() -> nat {
        168
    }

    open spec fn align() -> nat {
        8
    }

    open spec fn parse(bytes: Seq<u8>) -> Item_Consumable {
        Item_Consumable {
            base: Item::parse(bytes.subrange(0, 72)),
            count: u8::parse(bytes.subrange(160, 161)),
        }
    }

    fn size_of() -> (n: usize) {
        168
    }

    fn align_of() -> (n: usize) {
        8
    }

    fn read(bytes: &[u8], offset: usize) -> (r: Item_Consumable) {
        proof {
            lemma_slice_len(bytes);
            let whole = bytes@.subrange(offset as int, offset + 168);
            assert(whole.subrange(0, 72) =~= bytes@.subrange(offset + 0, offset + 72));
            assert(whole.subrange(160, 161) =~= bytes@.subrange(offset + 160, offset + 161));
        }
        Item_Consumable {
            base: Item::read(bytes, offset),
            count: u8::read(bytes, offset + 160),
        }
    }
}

/// A container.
#[allow(non_camel_case_types)]
#[derive(Clone, Copy, Debug, PartialEq, Eq)]
pub struct Item_Container {
    pub base: Item,
    /// Number of items in the stack.
    pub count: u8,
}

impl Pod for Item_Container {
    open spec fn size() -> nat {
        168
    }

    open spec fn align() -> nat {
        8
    }

    open spec fn parse(bytes: Seq<u8>) -> Item_Container {
        Item_Container {
            base: Item::parse(bytes.subrange(0, 72)),
            count: u8::parse(bytes.subrange(160, 161)),
        }
    }

    fn size_of() -> (n: usize) {
        168
    }

    fn align_of() -> (n: usize) {
        8
    }

    fn read(bytes: &[u8], offset: usize) -> (r: Item_Container) {
        proof {
            lemma_slice_len(bytes);
            let whole = bytes@.subrange(offset as int, offset + 168);
            assert(whole.subrange(0, 72) =~= bytes@.subrange(offset + 0, offset + 72));
            assert(whole.subrange(160, 161) =~= bytes@.subrange(offset + 160, offset + 161));
        }
        Item_Container {
            base: Item::read(bytes, offset),
            count: u8::read(bytes, offset + 160),
        }
    }
}

/// A crafting material.
#[allow(non_camel_case_types)]
#[derive(Clone, Copy, Debug, PartialEq, Eq)]
pub struct Item_CraftingMaterial {
    pub base: Item,
    /// Number of items in the stack.
    pub count: u8,
}

impl Pod for Item_CraftingMaterial {
    open spec fn size() -> nat {
        168
    }

    open spec fn align() -> nat {
        8
    }

    open spec fn parse(bytes: Seq<u8>) -> Item_CraftingMaterial {
        Item_CraftingMaterial {
            base: Item::parse(bytes.subrange(0, 72)),
            count: u8::parse(bytes.subrange(160, 161)),
        }
    }

    fn size_of() -> (n: usize) {
        168
    }

    fn align_of() -> (n: usize) {
        8
    }

    fn read(bytes: &[u8], offset: usize) -> (r: Item_CraftingMaterial) {
        proof {
            lemma_slice_len(bytes);
            let whole = bytes@.subrange(offset as int, offset + 168);
            assert(whole.subrange(0, 72) =~= bytes@.subrange(offset + 0, offset + 72));
            assert(whole.subrange(160, 161) =~= bytes@.subrange(offset + 160, offset + 161));
        }
        Item_CraftingMaterial {
            base: Item::read(bytes, offset),
            count: u8::read(bytes, offset + 160),
        }
    }
}

/// A gizmo.  The count is valid only where the gizmo stacks.
#[allow(non_camel_case_types)]
#[derive(Clone, Copy, Debug, PartialEq, Eq)]
pub struct Item_Gizmo {
    pub base: Item,
    /// Number of items in the stack.
    pub count: u8,
}

impl Pod for Item_Gizmo {
    open spec fn size() -> nat {
        168
    }

    open spec fn align() -> nat {
        8
    }

    open spec fn parse(bytes: Seq<u8>) -> Item_Gizmo {
        Item_Gizmo {
            base: Item::parse(bytes.subrange(0, 72)),
            count: u8::parse(bytes.subrange(160, 161)),
        }
    }

    fn size_of() -> (n: usize) {
        168
    }

    fn align_of() -> (n: usize) {
        8
    }

    fn read(bytes: &[u8], offset: usize) -> (r: Item_Gizmo) {
        proof {
            lemma_slice_len(bytes);
            let whole = bytes@.subrange(offset as int, offset + 168);
            assert(whole.subrange(0, 72) =~= bytes@.subrange(offset + 0, offset + 72));
            assert(whole.subrange(160, 161) =~= bytes@.subrange(offset + 160, offset + 161));
        }
        Item_Gizmo {
            base: Item::read(bytes, offset),
            count: u8::read(bytes, offset + 160),
        }
    }
}

/// A tool.
#[allow(non_camel_case_types)]
#[derive(Clone, Copy, Debug, PartialEq, Eq)]
pub struct Item_Tool {
    pub base: Item,
    /// Number of items in the stack.
    pub count: u8,
}

impl Pod for Item_Tool {
    open spec fn size() -> nat {
        168
    }

    open spec fn align() -> nat {
        8
    }

    open spec fn parse(bytes: Seq<u8>) -> Item_Tool {
        Item_Tool {
            base: Item::parse(bytes.subrange(0, 72)),
            count: u8::parse(bytes.subrange(160, 161)),
        }
    }

    fn size_of() -> (n: usize) {
        168
    }

    fn align_of() -> (n: usize) {
        8
    }

    fn read(bytes: &[u8], offset: usize) -> (r: Item_Tool) {
        proof {
            lemma_slice_len(bytes);
            let whole = bytes@.subrange(offset as int, offset + 168);
            assert(whole.subrange(0, 72) =~= bytes@.subrange(offset + 0, offset + 72));
            assert(whole.subrange(160, 161) =~= bytes@.subrange(offset + 160, offset + 161));
        }
        Item_Tool {
            base: Item::read(bytes, offset),
            count: u8::read(bytes, offset + 160),
        }
    }
}

/// A trophy.
#[allow(non_camel_case_types)]
#[derive(Clone, Copy, Debug, PartialEq, Eq)]
pub struct Item_Trophy {
    pub base: Item,
    /// Number of items in the stack.
    pub count: u8,
}

impl Pod for Item_Trophy {
    open spec fn size() -> nat {
        168
    }

    open spec fn align() -> nat {
        8
    }

    open spec fn parse(bytes: Seq<u8>) -> Item_Trophy {
        Item_Trophy {
            base: Item::parse(bytes.subrange(0, 72)),
            count: u8::parse(bytes.subrange(160, 161)),
        }
    }

    fn size_of() -> (n: usize) {
        168
    }

    fn align_of() -> (n: usize) {
        8
    }

    fn read(bytes: &[u8], offset: usize) -> (r: Item_Trophy) {
        proof {
            lemma_slice_len(bytes);
            let whole = bytes@.subrange(offset as int, offset + 168);
            assert(whole.subrange(0, 72) =~= bytes@.subrange(offset + 0, offset + 72));
            assert(whole.subrange(160, 161) =~= bytes@.subrange(offset + 160, offset + 161));
        }
        Item_Trophy {
            base: Item::read(bytes, offset),
            count: u8::read(bytes, offset + 160),
        }
    }
}

/// An upgrade component.
#[allow(non_camel_case_types)]
#[derive(Clone, Copy, Debug, PartialEq, Eq)]
pub struct Item_UpgradeComponent {
    pub base: Item,
    /// Number of items in the stack.
    pub count: u8,
}

impl Pod for Item_UpgradeComponent {
    open spec fn size() -> nat {
        224
    }

    open spec fn align() -> nat {
        8
    }

    open spec fn parse(bytes: Seq<u8>) -> Item_UpgradeComponent {
        Item_UpgradeComponent {
            base: Item::parse(bytes.subrange(0, 72)),
            count: u8::parse(bytes.subrange(216, 217)),
        }
    }

    fn size_of() -> (n: usize) {
        224
    }

    fn align_of() -> (n: usize) {
        8
    }

    fn read(bytes: &[u8], offset: usize) -> (r: Item_UpgradeComponent) {
        proof {
            lemma_slice_len(bytes);
            let whole = bytes@.subrange(offset as int, offset + 224);
            assert(whole.subrange(0, 72) =~= bytes@.subrange(offset + 0, offset + 72));
            assert(whole.subrange(216, 217) =~= bytes@.subrange(offset + 216, offset + 217));
        }
        Item_UpgradeComponent {
            base: Item::read(bytes, offset),
            count: u8::read(bytes, offset + 216),
        }
    }
}

impl Character {
    /// The inventory of the character, where the memory holds it.
    pub fn get_inventory(&self, mem: &Memory) -> (r: Option<CharInventory>)
        requires
            mem.wf(),
        ensures
            r == mem.spec_get::<CharInventory>(self.inventory),
    {
        mem.get::<CharInventory>(self.inventory)
    }

    /// The inventory of the character.
    pub fn inventory(&self, mem: &Memory) -> (r: CharInventory)
        requires
            mem.wf(),
            mem.spec_get::<CharInventory>(self.inventory) is Some,
        ensures
            Some(r) == mem.spec_get::<CharInventory>(self.inventory),
    {
        self.get_inventory(mem).unwrap()
    }

    /// The wallet of the character, where the memory holds it.
    pub fn get_wallet(&self, mem: &Memory) -> (r: Option<CharWallet>)
        requires
            mem.wf(),
        ensures
            r == mem.spec_get::<CharWallet>(self.wallet),
    {
        mem.get::<CharWallet>(self.wallet)
    }

    /// The wallet of the character.
    pub fn wallet(&self, mem: &Memory) -> (r: CharWallet)
        requires
            mem.wf(),
            mem.spec_get::<CharWallet>(self.wallet) is Some,
        ensures
            Some(r) == mem.spec_get::<CharWallet>(self.wallet),
    {
        self.get_wallet(mem).unwrap()
    }
}

impl CharWallet {
    /// The entries of the hash table of the wallet, used or not, where the memory holds them.
    pub fn get_entries(&self, mem: &Memory) -> (r: Option<Vec<WalletEntry>>)
        requires
            mem.wf(),
        ensures
            match r {
                Some(v) => {
                    mem.spec_get_slice::<WalletEntry>(self.entries.data, self.entries.cap as usize) == Some(v@)
                },
                None => {
                    mem.spec_get_slice::<WalletEntry>(self.entries.data, self.entries.cap as usize) is None
                },
            },
    {
        mem.get_slice::<WalletEntry>(self.entries.data, self.entries.cap as usize)
    }

    /// The entries of the hash table of the wallet, used or not.
    pub fn entries(&self, mem: &Memory) -> (r: Vec<WalletEntry>)
        requires
            mem.wf(),
            mem.spec_get_slice::<WalletEntry>(self.entries.data, self.entries.cap as usize) is Some,
        ensures
            Some(r@) == mem.spec_get_slice::<WalletEntry>(self.entries.data, self.entries.cap as usize),
    {
        self.get_entries(mem).unwrap()
    }
}

impl CharInventory {
    /// The addresses of the items in the inventory slots, where the memory holds them.
    pub fn get_slots(&self, mem: &Memory) -> (r: Option<Vec<u64>>)
        requires
            mem.wf(),
        ensures
            match r {
                Some(v) => {
                    mem.spec_get_slice::<u64>(self.slots.data, self.slots.len as usize) == Some(v@)
                },
                None => mem.spec_get_slice::<u64>(self.slots.data, self.slots.len as usize) is None,
            },
    {
        mem.get_slice::<u64>(self.slots.data, self.slots.len as usize)
    }

    /// The addresses of the items in the inventory slots.
    pub fn slots(&self, mem: &Memory) -> (r: Vec<u64>)
        requires
            mem.wf(),
            mem.spec_get_slice::<u64>(self.slots.data, self.slots.len as usize) is Some,
        ensures
            Some(r@) == mem.spec_get_slice::<u64>(self.slots.data, self.slots.len as usize),
    {
        self.get_slots(mem).unwrap()
    }

    /// The addresses of the items in the shared inventory slots, where the memory holds them.
    pub fn get_shared_slots(&self, mem: &Memory) -> (r: Option<Vec<u64>>)
        requires
            mem.wf(),
        ensures
            match r {
                Some(v) => {
                    mem.spec_get_slice::<u64>(self.shared_slots.data, self.shared_slots.len as usize) == Some(v@)
                },
                None => {
                    mem.spec_get_slice::<u64>(self.shared_slots.data, self.shared_slots.len as usize) is None
                },
            },
    {
        mem.get_slice::<u64>(self.shared_slots.data, self.shared_slots.len as usize)
    }

    /// The addresses of the items in the shared inventory slots.
    pub fn shared_slots(&self, mem: &Memory) -> (r: Vec<u64>)
        requires
            mem.wf(),
            mem.spec_get_slice::<u64>(self.shared_slots.data, self.shared_slots.len as usize) is Some,
        ensures
            Some(r@) == mem.spec_get_slice::<u64>(self.shared_slots.data, self.shared_slots.len as usize),
    {
        self.get_shared_slots(mem).unwrap()
    }
}

impl Item {
    /// The definition of the item, where the memory holds it.
    pub fn get_def(&self, mem: &Memory) -> (r: Option<ItemDef>)
        requires
            mem.wf(),
        ensures
            r == mem.spec_get::<ItemDef>(self.def),
    {
        mem.get::<ItemDef>(self.def)
    }

    /// The definition of the item.
    pub fn def(&self, mem: &Memory) -> (r: ItemDef)
        requires
            mem.wf(),
            mem.spec_get::<ItemDef>(self.def) is Some,
        ensures
            Some(r) == mem.spec_get::<ItemDef>(self.def),
    {
        self.get_def(mem).unwrap()
    }

    /// Number of items in the stack that the item at `addr` is, as far as it is known for
    /// items of its kind.
    pub open spec fn spec_count(&self, mem: &Memory, addr: u64) -> Option<u8> {
        match mem.spec_get::<ItemDef>(self.def) {
            None => None,
            Some(def) => {
                let kind = def.type_.0;
                if kind == ItemType::ARMOR || kind == ItemType::BACK || kind
                    == ItemType::JADE_TECH_MODULE || kind == ItemType::TRINKET || kind
                    == ItemType::WEAPON {
                    Some(1u8)
                } else if kind == ItemType::CONSUMABLE {
                    match mem.spec_get::<Item_Consumable>(addr) {
                        Some(x) => Some(x.count),
                        None => None,
                    }
                } else if kind == ItemType::CONTAINER {
                    match mem.spec_get::<Item_Container>(addr) {
                        Some(x) => Some(x.count),
                        None => None,
                    }
                } else if kind == ItemType::CRAFTING_MATERIAL {
                    match mem.spec_get::<Item_CraftingMaterial>(addr) {
                        Some(x) => Some(x.count),
                        None => None,
                    }
                } else if kind == ItemType::TROPHY {
                    match mem.spec_get::<Item_Trophy>(addr) {
                        Some(x) => Some(x.count),
                        None => None,
                    }
                } else if kind == ItemType::UPGRADE_COMPONENT {
                    match mem.spec_get::<Item_UpgradeComponent>(addr) {
                        Some(x) => Some(x.count),
                        None => None,
                    }
                } else {
                    None
                }
            },
        }
    }

    /// Number of items in the stack that this item, read at `addr`, is.  Items that do not
    /// stack count one; for kinds whose count is not known there is no answer.
    pub fn count(&self, mem: &Memory, addr: u64) -> (r: Option<u8>)
        requires
            mem.wf(),
        ensures
            r == self.spec_count(mem, addr),
    {
        let def = match self.get_def(mem) {
            Some(def) => def,
            None => {
                return None;
            },
        };
        let kind = def.type_.0;
        if kind == ItemType::ARMOR || kind == ItemType::BACK || kind == ItemType::JADE_TECH_MODULE
            || kind == ItemType::TRINKET || kind == ItemType::WEAPON {
            // These do not stack.
            Some(1)
        } else if kind == ItemType::CONSUMABLE {
            match mem.get::<Item_Consumable>(addr) {
                Some(x) => Some(x.count),
                None => None,
            }
        } else if kind == ItemType::CONTAINER {
            match mem.get::<Item_Container>(addr) {
                Some(x) => Some(x.count),
                None => None,
            }
        } else if kind == ItemType::CRAFTING_MATERIAL {
            match mem.get::<Item_CraftingMaterial>(addr) {
                Some(x) => Some(x.count),
                None => None,
            }
        } else if kind == ItemType::TROPHY {
            match mem.get::<Item_Trophy>(addr) {
                Some(x) => Some(x.count),
                None => None,
            }
        } else if kind == ItemType::UPGRADE_COMPONENT {
            match mem.get::<Item_UpgradeComponent>(addr) {
                Some(x) => Some(x.count),
                None => None,
            }
        } else {
            None
        }
    }
}

} // verus!
