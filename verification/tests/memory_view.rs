use std::collections::BTreeMap;

use gear_opt::memory::find::map_delta;
use gear_opt::memory::maps::Maps;
use gear_opt::memory::types::{
    AnetArray, AnetHashTable, CharInventory, CharWallet, Character, Item, ItemDef, ItemType,
    Item_Consumable, Item_UpgradeComponent, Rarity, WalletEntry,
};
use gear_opt::memory::{read_u16, read_u32, read_u64, Memory, Pod};

fn put(bytes: &mut [u8], at: usize, value: u64, size: usize) {
    bytes[at..at + size].copy_from_slice(&value.to_le_bytes()[..size]);
}

#[test]
fn little_endian_reads() {
    let bytes = [0x01, 0x02, 0x03, 0x04, 0x05, 0x06, 0x07, 0x08, 0xff];
    assert_eq!(read_u16(&bytes, 0), 0x0201);
    assert_eq!(read_u16(&bytes, 7), 0xff08);
    assert_eq!(read_u32(&bytes, 1), 0x05040302);
    assert_eq!(read_u64(&bytes, 0), 0x0807060504030201);
    assert_eq!(read_u64(&bytes, 1), 0xff08070605040302);
    assert_eq!(u8::read(&bytes, 8), 0xff);
    assert_eq!(i8::read(&bytes, 8), -1);
    assert_eq!(i16::read(&bytes, 7), -248);
    assert_eq!(i32::read(&[0xfe, 0xff, 0xff, 0xff], 0), -2);
    assert_eq!(i64::read(&[0xff; 8], 0), -1);
    assert_eq!(u32::size_of(), 4);
    assert_eq!(u64::align_of(), 8);
}

#[test]
fn memory_finds_the_governing_segment() {
    let low = [1u8, 2, 3, 4, 5, 6, 7, 8];
    let high = [9u8, 10, 11, 12];
    let mem = Memory::new(&[(&high[..], 0x2000), (&low[..], 0x1000)]);
    assert_eq!(mem.segments(), vec![(0x1000, &low[..]), (0x2000, &high[..])]);
    assert_eq!(mem.get::<u8>(0x1000), Some(1));
    assert_eq!(mem.get::<u8>(0x1007), Some(8));
    assert_eq!(mem.get::<u8>(0x1008), None);
    assert_eq!(mem.get::<u8>(0x0fff), None);
    assert_eq!(mem.get::<u8>(0x2003), Some(12));
    assert_eq!(mem.get::<u32>(0x2000), Some(0x0c0b0a09));
    assert_eq!(mem.get::<u32>(0x1004), Some(0x08070605));
    // The value must lie within its segment, at an aligned address.
    assert_eq!(mem.get::<u32>(0x1006), None);
    assert_eq!(mem.get::<u32>(0x1002), None);
    assert_eq!(mem.get::<u16>(0x1002), Some(0x0403));
    assert_eq!(mem.get::<u64>(0x2000), None);
    assert_eq!(mem.get::<u64>(u64::MAX), None);
}

#[test]
fn later_segment_at_an_address_counts() {
    let first = [1u8, 1];
    let second = [2u8, 2, 2];
    let mem = Memory::new(&[(&first[..], 0x10), (&second[..], 0x10)]);
    assert_eq!(mem.segments().len(), 1);
    assert_eq!(mem.get::<u8>(0x12), Some(2));
    let empty = Memory::new(&[]);
    assert_eq!(empty.get::<u8>(0), None);
    assert!(empty.segments().is_empty());
}

#[test]
fn slices_of_values() {
    let bytes = [1u8, 0, 2, 0, 3, 0, 4, 0];
    let mem = Memory::new(&[(&bytes[..], 0x100)]);
    assert_eq!(mem.get_slice::<u16>(0x100, 4), Some(vec![1, 2, 3, 4]));
    assert_eq!(mem.get_slice::<u16>(0x102, 2), Some(vec![2, 3]));
    assert_eq!(mem.get_slice::<u16>(0x102, 4), None);
    assert_eq!(mem.get_slice::<u16>(0x101, 1), None);
    assert_eq!(mem.get_slice::<u16>(0x108, 0), Some(vec![]));
    assert_eq!(mem.get_slice::<u16>(0x100, usize::MAX), None);
    assert_eq!(mem.get_slice::<u64>(0x100, 1), Some(vec![0x0004000300020001]));
}

#[test]
fn casts_and_addresses() {
    let bytes = [1u8, 0, 0, 0, 2, 0, 0, 0];
    let mem = Memory::new(&[(&bytes[..], 0x100)]);
    assert_eq!(mem.cast::<u64, u32>(0x100), Some(1));
    assert_eq!(mem.cast::<u32, u16>(0x104), Some(2));
    // No cast from a value that the segment does not hold whole.
    assert_eq!(mem.cast::<u64, u32>(0x104), None);
    assert_eq!(mem.addr::<u32>(0x104), Some(0x104));
    assert_eq!(mem.addr::<u64>(0x104), None);
    assert_eq!(mem.addr::<u8>(0x99), None);
}

#[test]
fn regions_are_kept_by_address() {
    let mut maps = Maps::new();
    assert_eq!(maps.len(), 0);
    maps.insert(0x3000, 0x1000);
    maps.insert(0x1000, 0x1000);
    maps.insert(0x2000, 0x800);
    assert_eq!(maps.len(), 3);
    assert_eq!(maps.iter(), vec![(0x1000, 0x1000), (0x2000, 0x800), (0x3000, 0x1000)]);
    maps.insert(0x2000, 0x1000);
    assert_eq!(maps.len(), 3);
    assert_eq!(maps.iter()[1], (0x2000, 0x1000));
}

#[test]
fn contains_follows_adjacent_regions() {
    let mut maps = Maps::new();
    maps.insert(0x1000, 0x1000);
    maps.insert(0x2000, 0x800);
    maps.insert(0x3000, 0x1000);
    assert!(maps.contains(0x1000, 0x1000));
    assert!(maps.contains(0x1800, 0x1000));
    assert!(maps.contains(0x1000, 0x1800));
    assert!(maps.contains(0x27ff, 1));
    assert!(maps.contains(0x3fff, 1));
    // The gap from 0x2800 to 0x3000 is not mapped.
    assert!(!maps.contains(0x2800, 1));
    assert!(!maps.contains(0x1000, 0x1801));
    assert!(!maps.contains(0x2700, 0x1000));
    assert!(!maps.contains(0xfff, 2));
    assert!(!maps.contains(0x4000, 1));
    // Nothing is always there; a range beyond the address space never is.
    assert!(maps.contains(0x9999, 0));
    assert!(!maps.contains(usize::MAX, 2));
    assert!(!Maps::new().contains(0, 1));
}

#[test]
fn region_to_the_end_of_the_address_space() {
    let mut maps = Maps::new();
    maps.insert(usize::MAX - 0xfff, 0x1000);
    assert!(maps.contains(usize::MAX - 0xfff, 0xfff));
    assert!(maps.contains(usize::MAX - 1, 1));
}

fn item_bytes(def: u64, count_at: usize, count: u8, size: usize) -> Vec<u8> {
    let mut bytes = vec![0u8; size];
    put(&mut bytes, 0, 0x7700, 8);
    put(&mut bytes, 64, def, 8);
    bytes[count_at] = count;
    bytes
}

fn def_bytes(id: u32, kind: u32, rarity: u32) -> Vec<u8> {
    let mut bytes = vec![0u8; 100];
    put(&mut bytes, 40, id as u64, 4);
    put(&mut bytes, 44, kind as u64, 4);
    put(&mut bytes, 96, rarity as u64, 4);
    bytes
}

#[test]
fn layouts() {
    assert_eq!((AnetArray::size_of(), AnetArray::align_of()), (16, 8));
    assert_eq!((AnetHashTable::size_of(), AnetHashTable::align_of()), (16, 8));
    assert_eq!((Character::size_of(), Character::align_of()), (48, 8));
    assert_eq!((CharWallet::size_of(), CharWallet::align_of()), (24, 8));
    assert_eq!((WalletEntry::size_of(), WalletEntry::align_of()), (12, 4));
    assert_eq!((CharInventory::size_of(), CharInventory::align_of()), (280, 8));
    assert_eq!((ItemDef::size_of(), ItemDef::align_of()), (100, 4));
    assert_eq!((Item::size_of(), Item::align_of()), (72, 8));
    assert_eq!((Item_Consumable::size_of(), Item_Consumable::align_of()), (168, 8));
    assert_eq!((Item_UpgradeComponent::size_of(), Item_UpgradeComponent::align_of()), (224, 8));
    assert_eq!(ItemType::size_of(), 4);
    assert_eq!(Rarity::size_of(), 4);
}

#[test]
fn item_definition_is_decoded() {
    let bytes = def_bytes(44602, ItemType::TOOL, Rarity::BASIC);
    let def = ItemDef::read(&bytes, 0);
    assert_eq!(def, ItemDef { id: 44602, type_: ItemType(19), rarity: Rarity(1) });
}

#[test]
fn character_leads_to_inventory_and_wallet() {
    let mut chr = vec![0u8; 48];
    put(&mut chr, 32, 0x2000, 8);
    put(&mut chr, 40, 0x3000, 8);
    let mut inv = vec![0u8; 280];
    put(&mut inv, 200, 0x4000, 8);
    put(&mut inv, 208, 4, 4);
    put(&mut inv, 212, 3, 4);
    put(&mut inv, 264, 0x4020, 8);
    put(&mut inv, 272, 1, 4);
    put(&mut inv, 276, 1, 4);
    let mut wallet = vec![0u8; 24];
    put(&mut wallet, 8, 2, 4);
    put(&mut wallet, 12, 1, 4);
    put(&mut wallet, 16, 0x5000, 8);
    let mut slots = vec![0u8; 40];
    put(&mut slots, 0, 0x6000, 8);
    put(&mut slots, 16, 0x6100, 8);
    put(&mut slots, 32, 0x6200, 8);
    let mut entries = vec![0u8; 24];
    put(&mut entries, 0, 64, 4);
    put(&mut entries, 4, 16076, 4);
    put(&mut entries, 8, 0xabcd, 4);
    let mem = Memory::new(&[
        (&chr[..], 0x1000),
        (&inv[..], 0x2000),
        (&wallet[..], 0x3000),
        (&slots[..], 0x4000),
        (&entries[..], 0x5000),
    ]);
    let c: Character = mem.get(0x1000).unwrap();
    assert_eq!((c.inventory, c.wallet), (0x2000, 0x3000));
    let inventory = c.inventory(&mem);
    assert_eq!(inventory.slots, AnetArray { data: 0x4000, cap: 4, len: 3 });
    assert_eq!(c.get_inventory(&mem), Some(inventory));
    assert_eq!(inventory.slots(&mem), vec![0x6000, 0, 0x6100]);
    assert_eq!(inventory.get_slots(&mem), Some(vec![0x6000, 0, 0x6100]));
    assert_eq!(inventory.shared_slots(&mem), vec![0x6200]);
    assert_eq!(inventory.get_shared_slots(&mem), Some(vec![0x6200]));
    let w = c.wallet(&mem);
    assert_eq!(c.get_wallet(&mem), Some(w));
    assert_eq!(w.entries, AnetHashTable { cap: 2, len: 1, data: 0x5000 });
    let e = w.entries(&mem);
    assert_eq!(w.get_entries(&mem), Some(e.clone()));
    assert_eq!(e[0], WalletEntry { currency_id: 64, amount: 16076, hash: 0xabcd });
    assert_eq!(e[1], WalletEntry { currency_id: 0, amount: 0, hash: 0 });
    // A character whose pointers lead nowhere.
    let lost = Character { vtable0: 0, vtable1: 0, inventory: 0x9000, wallet: 0x2004 };
    assert_eq!(lost.get_inventory(&mem), None);
    assert_eq!(lost.get_wallet(&mem), None);
    let torn = CharInventory {
        slots: AnetArray { data: 0x4000, cap: 9, len: 9 },
        shared_slots: AnetArray { data: 0x4001, cap: 1, len: 1 },
    };
    assert_eq!(torn.get_slots(&mem), None);
    assert_eq!(torn.get_shared_slots(&mem), None);
}

#[test]
fn item_counts() {
    let tool = def_bytes(1, ItemType::TOOL, Rarity::RARE);
    let armor = def_bytes(2, ItemType::ARMOR, Rarity::EXOTIC);
    let food = def_bytes(3, ItemType::CONSUMABLE, Rarity::FINE);
    let rune = def_bytes(4, ItemType::UPGRADE_COMPONENT, Rarity::EXOTIC);
    let an_armor = item_bytes(0x1100, 71, 0, 72);
    let some_food = item_bytes(0x1200, 160, 250, 168);
    let runes = item_bytes(0x1300, 216, 6, 224);
    let a_tool = item_bytes(0x1000, 160, 9, 168);
    let short_food = item_bytes(0x1200, 71, 0, 72);
    let mem = Memory::new(&[
        (&tool[..], 0x1000),
        (&armor[..], 0x1100),
        (&food[..], 0x1200),
        (&rune[..], 0x1300),
        (&an_armor[..], 0x2000),
        (&some_food[..], 0x3000),
        (&runes[..], 0x4000),
        (&a_tool[..], 0x5000),
        (&short_food[..], 0x6000),
    ]);
    let count = |addr: u64| mem.get::<Item>(addr).unwrap().count(&mem, addr);
    assert_eq!(mem.get::<Item>(0x3000).unwrap().def(&mem).id, 3);
    assert_eq!(mem.get::<Item>(0x3000).unwrap().get_def(&mem).map(|d| d.rarity), Some(Rarity(2)));
    assert_eq!(count(0x2000), Some(1));
    assert_eq!(count(0x3000), Some(250));
    assert_eq!(count(0x4000), Some(6));
    // The count of a tool is not known.
    assert_eq!(count(0x5000), None);
    // A consumable that its segment does not hold whole.
    assert_eq!(count(0x6000), None);
    let orphan = Item { vtable: 0, def: 0x7777 };
    assert_eq!(orphan.get_def(&mem), None);
    assert_eq!(orphan.count(&mem, 0x2000), None);
}

#[test]
fn find_tries_every_aligned_offset() {
    let bytes = [7u8, 0, 9, 0, 7, 0, 0, 7, 7];
    let sevens = gear_opt::memory::find::find(&bytes, |x: &u16| *x == 7);
    assert_eq!(sevens, vec![(0, 7), (4, 7)]);
    let bytes_found = gear_opt::memory::find::find(&bytes, |x: &u8| *x == 7);
    assert_eq!(bytes_found, vec![(0, 7), (4, 7), (7, 7), (8, 7)]);
    let all = gear_opt::memory::find::find(&bytes, |_x: &u32| true);
    assert_eq!(all.iter().map(|f| f.0).collect::<Vec<_>>(), vec![0, 4]);
    let none = gear_opt::memory::find::find(&bytes, |_x: &u64| true);
    assert_eq!(none.iter().map(|f| f.0).collect::<Vec<_>>(), vec![0]);
    let short = gear_opt::memory::find::find(&bytes[..3], |_x: &u32| true);
    assert!(short.is_empty());
    let empty = gear_opt::memory::find::find(&[], |_x: &u8| true);
    assert!(empty.is_empty());
}

#[test]
fn find_in_segments() {
    let low = [1u8, 0, 0, 0, 5, 0, 0, 0];
    let high = [5u8, 0, 0, 0];
    let mem = Memory::new(&[(&low[..], 0x1000), (&high[..], 0x2000)]);
    let fives = gear_opt::memory::find::find_in_segs(&mem, 16, 32, |x: &u32| *x == 5);
    assert_eq!(fives.opts(), &vec![0x1004, 0x2000]);
    assert_eq!(fives.dump_before, 16);
    assert_eq!(fives.dump_after, 36);
    let ones = gear_opt::memory::find::find_in_segs(&mem, 0, usize::MAX, |x: &u32| *x == 1);
    assert_eq!(ones.opts(), &vec![0x1000]);
    assert_eq!(ones.sole(), 0x1000);
    assert_eq!(ones.dump_after, usize::MAX);
    let nothing = gear_opt::memory::find::find_in_segs(&mem, 0, 0, |x: &u32| *x == 2);
    assert!(nothing.opts().is_empty());
}

#[test]
fn items_by_slot() {
    let tool = def_bytes(44602, ItemType::TOOL, Rarity::BASIC);
    let a_tool = item_bytes(0x1000, 160, 9, 168);
    let mut array = vec![0u8; 24];
    put(&mut array, 0, 0x5000, 8);
    put(&mut array, 8, 0, 8);
    put(&mut array, 16, 0x1000, 8);
    let mem = Memory::new(&[(&tool[..], 0x1000), (&a_tool[..], 0x5000), (&array[..], 0x8000)]);
    let (addr, item, def) = gear_opt::memory::find::try_get_item(&mem, 0x8000, 0).unwrap();
    assert_eq!(addr, 0x5000);
    assert_eq!(item.def, 0x1000);
    assert_eq!(def.id, 44602);
    // An empty slot.
    assert_eq!(gear_opt::memory::find::try_get_item(&mem, 0x8000, 1), None);
    // A slot whose pointer leads to something that is no item.
    assert_eq!(gear_opt::memory::find::try_get_item(&mem, 0x8000, 2), None);
    // A slot beyond the array, and one beyond the address space.
    assert_eq!(gear_opt::memory::find::try_get_item(&mem, 0x8000, 3), None);
    assert_eq!(gear_opt::memory::find::try_get_item(&mem, u64::MAX, 1), None);
}

#[test]
fn deltas_of_counts() {
    let counts = |pairs: &[(u32, u32)]| pairs.iter().copied().collect::<BTreeMap<u32, u32>>();
    let old = counts(&[(64, 16076), (15, 6832), (7, 1)]);
    let new = counts(&[(15, 6900), (64, 16000), (99, 5)]);
    // What has changed comes first, then what is new, each by ascending key.
    assert_eq!(map_delta(&old, &new), vec![(7, -1), (15, 68), (64, -76), (99, 5)]);
    assert_eq!(map_delta(&old, &old), vec![]);
    assert_eq!(map_delta(&counts(&[]), &new), vec![(15, 6900), (64, 16000), (99, 5)]);
    assert_eq!(map_delta(&new, &counts(&[])), vec![(15, -6900), (64, -16000), (99, -5)]);
    assert_eq!(
        map_delta(&counts(&[(1, u32::MAX)]), &counts(&[(1, 0)])),
        vec![(1, -(u32::MAX as i64))],
    );
}
