use indexer_store::block::{BlockHash, PrecomputedBlock, GetCanonicity, SetCanonicity};
use indexer_store::column_family::ColumnFamily;
use indexer_store::connection::TestConn;
use indexer_store::operation::{Action, Event, Read, Slot, Step, Write};
use indexer_store::store::IndexerStore;
use indexer_store::transaction_key::TransactionKey;
use std::collections::BTreeMap;

type Block = PrecomputedBlock<u8, Vec<u8>>;

/// A database in memory that notes what it is asked for.
struct Database {
    cells: BTreeMap<(String, Vec<u8>), Vec<u8>>,
    asked: Vec<String>,
    broken: Option<&'static str>,
}

fn database() -> Database {
    Database { cells: BTreeMap::new(), asked: Vec::new(), broken: None }
}

fn cell(slot: &Slot) -> (String, Vec<u8>) {
    (slot.family.name().to_string(), slot.key.clone())
}

trait Value: Sized {
    fn encode(&self) -> Result<Vec<u8>, String>;
    fn decode(bytes: &[u8]) -> Result<Self, String>;
}

impl Value for String {
    fn encode(&self) -> Result<Vec<u8>, String> {
        if self == "unwritable" {
            Err("encode".to_string())
        } else {
            Ok(self.clone().into_bytes())
        }
    }

    fn decode(bytes: &[u8]) -> Result<Self, String> {
        String::from_utf8(bytes.to_vec()).map_err(|_| "decode".to_string())
    }
}

impl Value for Block {
    fn encode(&self) -> Result<Vec<u8>, String> {
        let mut bytes = vec![self.state_hash.len() as u8];
        bytes.extend(self.state_hash.as_bytes());
        bytes.push(self.canonicity.map_or(255, |c| c));
        bytes.extend(&self.rest);
        Ok(bytes)
    }

    fn decode(bytes: &[u8]) -> Result<Self, String> {
        let n = *bytes.first().ok_or("decode")? as usize;
        let state_hash = String::from_utf8(bytes[1..1 + n].to_vec()).map_err(|_| "decode")?;
        let canonicity = Some(bytes[1 + n]).filter(|c| *c != 255);
        Ok(PrecomputedBlock { state_hash, canonicity, rest: bytes[2 + n..].to_vec() })
    }
}

impl Database {
    fn attempt(&mut self, what: &'static str) -> Result<(), String> {
        self.asked.push(what.to_string());
        if self.broken == Some(what) {
            Err(what.to_string())
        } else {
            Ok(())
        }
    }

    fn perform<V: Value>(&mut self, action: Action<V>) -> Event<V, String> {
        match action {
            Action::CatchUp => Event::CaughtUp(self.attempt("catch up")),
            Action::Get { slot } => {
                Event::Got(self.attempt("get").map(|_| self.cells.get(&cell(&slot)).cloned()))
            }
            Action::Put { slot, bytes } => Event::Stored(self.attempt("put").map(|_| {
                self.cells.insert(cell(&slot), bytes);
            })),
            Action::Delete { slot } => Event::Deleted(self.attempt("delete").map(|_| {
                self.cells.remove(&cell(&slot));
            })),
            Action::Encode { value } => Event::Encoded(value.encode()),
            Action::Decode { bytes } => Event::Decoded(V::decode(&bytes)),
        }
    }

    fn read<V: Value>(&mut self, started: (Read, Action<V>)) -> Result<Option<V>, String> {
        let (mut operation, mut action) = started;
        loop {
            match operation.next(self.perform(action)) {
                Step::Perform { operation: o, action: a } => {
                    operation = o;
                    action = a;
                }
                Step::Finish { result } => return result,
            }
        }
    }

    fn write<V: Value>(&mut self, started: (Write, Action<V>)) -> Result<(), String> {
        let (mut operation, mut action) = started;
        loop {
            match operation.next(self.perform(action)) {
                Step::Perform { operation: o, action: a } => {
                    operation = o;
                    action = a;
                }
                Step::Finish { result } => return result,
            }
        }
    }

    fn set(&mut self, started: (SetCanonicity<u8>, Action<Block>)) -> Result<(), String> {
        let (mut operation, mut action) = started;
        loop {
            match operation.next(self.perform(action)) {
                Step::Perform { operation: o, action: a } => {
                    operation = o;
                    action = a;
                }
                Step::Finish { result } => return result,
            }
        }
    }

    fn get(&mut self, started: (GetCanonicity, Action<Block>)) -> Result<Option<u8>, String> {
        let (mut operation, mut action) = started;
        loop {
            match operation.next(self.perform(action)) {
                Step::Perform { operation: o, action: a } => {
                    operation = o;
                    action = a;
                }
                Step::Finish { result } => return result,
            }
        }
    }

    fn test(&mut self, started: (TestConn, Action<String>)) -> Result<(), String> {
        let (mut operation, mut action) = started;
        loop {
            match operation.next(self.perform(action)) {
                Step::Perform { operation: o, action: a } => {
                    operation = o;
                    action = a;
                }
                Step::Finish { result } => return result,
            }
        }
    }
}

fn store() -> IndexerStore<String> {
    let outcome: Result<(), String> = Ok(());
    IndexerStore::new("/db".to_string()).opened(outcome).unwrap()
}

fn hash(text: &str) -> BlockHash {
    BlockHash(text.to_string())
}

fn block(state_hash: &str, rest: &[u8]) -> Block {
    PrecomputedBlock { state_hash: state_hash.to_string(), canonicity: None, rest: rest.to_vec() }
}

#[test]
fn new_opens_five_families() {
    let plan = IndexerStore::new("/db");
    assert_eq!(plan.path, "/db");
    assert_eq!(plan.secondary, None);
    let names: Vec<&str> = plan.families.iter().map(|f| f.name()).collect();
    assert_eq!(names, ["blocks", "ledgers", "canonicity", "tx", "staking-ledgers"]);
    assert_eq!(plan.max_write_buffer_number, Some(16));
    assert!(plan.create_if_missing);
    assert!(plan.create_missing_column_families);
    let store = plan.opened::<()>(Ok(())).unwrap();
    assert_eq!(*store.db_path(), "/db");
    for family in [
        ColumnFamily::Default,
        ColumnFamily::Blocks,
        ColumnFamily::Ledgers,
        ColumnFamily::Canonicity,
        ColumnFamily::Tx,
        ColumnFamily::StakingLedgers,
    ] {
        assert!(store.has(family));
        assert_eq!(store.column_family(family.name()), Some(family));
    }
    assert_eq!(store.column_family("nothing"), None);
}

#[test]
fn read_only_opens_two_families() {
    let plan = IndexerStore::new_read_only("/db", "/secondary");
    assert_eq!(plan.path, "/db");
    assert_eq!(plan.secondary, Some("/secondary"));
    assert_eq!(plan.max_write_buffer_number, None);
    assert!(!plan.create_if_missing);
    assert!(!plan.create_missing_column_families);
    let store = plan.opened::<()>(Ok(())).unwrap();
    assert_eq!(*store.db_path(), "/secondary");
    assert_eq!(store.column_family("blocks"), Some(ColumnFamily::Blocks));
    assert_eq!(store.column_family("ledgers"), Some(ColumnFamily::Ledgers));
    assert_eq!(store.column_family("default"), Some(ColumnFamily::Default));
    assert_eq!(store.column_family("tx"), None);
    assert_eq!(store.column_family("staking-ledgers"), None);
    assert!(!store.has(ColumnFamily::Canonicity));
}

#[test]
fn failed_opening_is_an_error() {
    let plan = IndexerStore::new("/db");
    assert_eq!(plan.opened(Err("locked")).err(), Some("locked"));
}

#[test]
fn block_is_read_back() {
    let mut db = database();
    let store = store();
    assert_eq!(db.write(store.add_block(block("3NK", b"body"))), Ok(()));
    assert_eq!(db.asked, ["put"]);
    assert!(db.cells.contains_key(&("blocks".to_string(), b"3NK".to_vec())));
    let read: Block = db.read(store.get_block(&hash("3NK"))).unwrap().unwrap();
    assert_eq!(read.state_hash, "3NK");
    assert_eq!(read.canonicity, None);
    assert_eq!(read.rest, b"body");
    assert_eq!(db.asked, ["put", "catch up", "get"]);
    let missing: Option<Block> = db.read(store.get_block(&hash("3NL"))).unwrap();
    assert!(missing.is_none());
}

#[test]
fn ledger_is_read_back() {
    let mut db = database();
    let store = store();
    db.write(store.add_ledger(&hash("3NK"), "ledger".to_string())).unwrap();
    assert!(db.cells.contains_key(&("ledgers".to_string(), b"3NK".to_vec())));
    let read: Option<String> = db.read(store.get_ledger(&hash("3NK"))).unwrap();
    assert_eq!(read, Some("ledger".to_string()));
    let block: Option<Block> = db.read(store.get_block(&hash("3NK"))).unwrap();
    assert!(block.is_none());
}

#[test]
fn epoch_is_read_back() {
    let mut db = database();
    let store = store();
    db.write(store.add_epoch(42, "staking".to_string())).unwrap();
    assert!(db.cells.contains_key(&("staking-ledgers".to_string(), b"epoch:42".to_vec())));
    let read: Option<String> = db.read(store.get_epoch(42)).unwrap();
    assert_eq!(read, Some("staking".to_string()));
    let other: Option<String> = db.read(store.get_epoch(4)).unwrap();
    assert_eq!(other, None);
}

#[test]
fn snapshot_is_replaced_and_read_back() {
    let mut db = database();
    let store = store();
    let none: Option<String> = db.read(store.read_snapshot()).unwrap();
    assert_eq!(none, None);
    db.write(store.store_state_snapshot("one".to_string())).unwrap();
    db.write(store.store_state_snapshot("two".to_string())).unwrap();
    assert!(db.cells.contains_key(&("default".to_string(), b"STATE".to_vec())));
    db.asked.clear();
    let read: Option<String> = db.read(store.read_snapshot()).unwrap();
    assert_eq!(read, Some("two".to_string()));
    assert_eq!(db.asked, ["get"]);
}

#[test]
fn transaction_is_stored_under_its_key() {
    let mut db = database();
    let store = store();
    db.write(store.put_tx(5, 1692269981257, "Ckp".to_string(), "tx".to_string())).unwrap();
    let key = TransactionKey::new(5, 1692269981257, "Ckp").bytes();
    assert_eq!(db.cells.get(&("tx".to_string(), key)), Some(&b"tx".to_vec()));
}

#[test]
fn canonicity_set_is_read() {
    let mut db = database();
    let store = store();
    db.write(store.add_block(block("a", b"1"))).unwrap();
    db.write(store.add_block(block("b", b"2"))).unwrap();
    assert_eq!(db.get(store.get_canonicity(&hash("a"))), Ok(None));
    assert_eq!(db.set(store.set_canonicity(&hash("a"), 3)), Ok(()));
    assert_eq!(db.get(store.get_canonicity(&hash("a"))), Ok(Some(3)));
    assert_eq!(db.get(store.get_canonicity(&hash("b"))), Ok(None));
    assert_eq!(db.set(store.set_canonicity(&hash("a"), 4)), Ok(()));
    assert_eq!(db.get(store.get_canonicity(&hash("a"))), Ok(Some(4)));
    let read: Block = db.read(store.get_block(&hash("a"))).unwrap().unwrap();
    assert_eq!(read.rest, b"1");
    assert_eq!(db.cells.len(), 2);
}

#[test]
fn canonicity_of_missing_block() {
    let mut db = database();
    let store = store();
    assert_eq!(db.set(store.set_canonicity(&hash("a"), 3)), Ok(()));
    assert_eq!(db.asked, ["catch up", "get"]);
    assert_eq!(db.get(store.get_canonicity(&hash("a"))), Ok(None));
    assert!(db.cells.is_empty());
}

#[test]
fn block_under_a_foreign_hash_is_rewritten_under_its_own() {
    let mut db = database();
    let store = store();
    db.cells.insert(("blocks".to_string(), b"a".to_vec()), block("b", b"2").encode().unwrap());
    assert_eq!(db.set(store.set_canonicity(&hash("a"), 3)), Ok(()));
    assert_eq!(db.get(store.get_canonicity(&hash("a"))), Ok(None));
    assert_eq!(db.get(store.get_canonicity(&hash("b"))), Ok(Some(3)));
}

#[test]
fn failure_to_catch_up_is_ignored() {
    let mut db = database();
    let store = store();
    db.write(store.add_ledger(&hash("a"), "ledger".to_string())).unwrap();
    db.broken = Some("catch up");
    let read: Option<String> = db.read(store.get_ledger(&hash("a"))).unwrap();
    assert_eq!(read, Some("ledger".to_string()));
}

#[test]
fn errors_end_an_operation() {
    let mut db = database();
    let store = store();
    assert_eq!(
        db.write(store.add_epoch(1, "unwritable".to_string())),
        Err("encode".to_string())
    );
    assert!(db.asked.is_empty());
    db.broken = Some("put");
    assert_eq!(db.write(store.add_epoch(1, "x".to_string())), Err("put".to_string()));
    db.broken = Some("get");
    let read: Result<Option<String>, String> = db.read(store.get_epoch(1));
    assert_eq!(read, Err("get".to_string()));
    assert_eq!(db.set(store.set_canonicity(&hash("a"), 3)), Err("get".to_string()));
    assert_eq!(db.get(store.get_canonicity(&hash("a"))), Err("get".to_string()));
    db.broken = None;
    db.cells.insert(("staking-ledgers".to_string(), b"epoch:1".to_vec()), vec![255]);
    let read: Result<Option<String>, String> = db.read(store.get_epoch(1));
    assert_eq!(read, Err("decode".to_string()));
}

#[test]
fn connection_test_cleans_up() {
    let mut db = database();
    let mut store = store();
    db.write(store.store_state_snapshot("one".to_string())).unwrap();
    db.asked.clear();
    assert_eq!(db.test(store.test_conn()), Ok(()));
    assert_eq!(db.asked, ["put", "delete"]);
    assert_eq!(db.cells.len(), 1);
    db.broken = Some("put");
    assert_eq!(db.test(store.test_conn()), Err("put".to_string()));
    db.broken = Some("delete");
    assert_eq!(db.test(store.test_conn()), Err("delete".to_string()));
    let left = db.cells.get(&("default".to_string(), b"test".to_vec()));
    assert_eq!(left, Some(&b"value".to_vec()));
}
