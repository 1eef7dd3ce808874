use asset::{
    fetch_first, Asset, AssetLoader, AssetLoaderKind, Assets, Handle, LoadError, Store,
};
use std::cell::RefCell;
use std::collections::HashMap;
use std::rc::Rc;

#[derive(Clone)]
struct MemStore {
    name: &'static str,
    files: Rc<RefCell<HashMap<String, Vec<u8>>>>,
    log: Rc<RefCell<Vec<String>>>,
}

impl MemStore {
    fn new(name: &'static str, log: &Rc<RefCell<Vec<String>>>) -> MemStore {
        MemStore { name, files: Rc::new(RefCell::new(HashMap::new())), log: log.clone() }
    }

    fn put(&self, id: &str, data: &str) {
        self.files.borrow_mut().insert(id.to_string(), data.as_bytes().to_vec());
    }
}

impl Store for MemStore {
    type Error = String;

    fn kind(&self) -> &'static str {
        self.name
    }

    fn fetch(&mut self, id: &str) -> Result<Vec<u8>, String> {
        self.log.borrow_mut().push(format!("{}:{}", self.name, id));
        match self.files.borrow().get(id) {
            Some(data) => Ok(data.clone()),
            None => Err(format!("{} has no {}", self.name, id)),
        }
    }

    fn close(&mut self) {}
}

#[derive(Debug, PartialEq)]
struct Text(String);

struct TextLoader {
    calls: usize,
}

impl AssetLoaderKind for TextLoader {
    fn loader_kind() -> &'static str {
        "TextLoader"
    }
}

impl AssetLoader<Text, ()> for TextLoader {
    type Error = String;

    fn load(&mut self, _: (), data: &[u8]) -> Result<Text, String> {
        self.calls += 1;
        String::from_utf8(data.to_vec()).map(Text).map_err(|e| e.to_string())
    }
}

impl Asset for Text {
    type Loader = TextLoader;

    fn kind() -> &'static str {
        "Text"
    }
}

#[derive(Debug, PartialEq, Eq)]
struct Foo {
    foo: u32,
}

struct FooLoader;

impl AssetLoaderKind for FooLoader {
    fn loader_kind() -> &'static str {
        "FooLoader"
    }
}

impl AssetLoader<Foo, ()> for FooLoader {
    type Error = String;

    fn load(&mut self, _: (), data: &[u8]) -> Result<Foo, String> {
        let value: ron::Value = ron::de::from_bytes(data).map_err(|e| e.to_string())?;
        let fields = match value {
            ron::Value::Map(fields) => fields,
            _ => return Err("expected a struct".to_string()),
        };
        let foo = fields.get(&ron::Value::String("foo".to_string())).ok_or("missing field foo")?;
        let foo: u32 = foo.clone().into_rust().map_err(|e| e.to_string())?;
        Ok(Foo { foo })
    }
}

impl Asset for Foo {
    type Loader = FooLoader;

    fn kind() -> &'static str {
        "Foo"
    }
}

const LICENSE_MIT: &'static str = "Copyright (c) 2016 The Asset Project Developers

Permission is hereby granted, free of charge, to any
person obtaining a copy of this software and associated
documentation files (the \"Software\"), to deal in the
Software without restriction, including without
limitation the rights to use, copy, modify, merge,
publish, distribute, sublicense, and/or sell copies of
the Software, and to permit persons to whom the Software
is furnished to do so, subject to the following
conditions:

The above copyright notice and this permission notice
shall be included in all copies or substantial portions
of the Software.

THE SOFTWARE IS PROVIDED \"AS IS\", WITHOUT WARRANTY OF
ANY KIND, EXPRESS OR IMPLIED, INCLUDING BUT NOT LIMITED
TO THE WARRANTIES OF MERCHANTABILITY, FITNESS FOR A
PARTICULAR PURPOSE AND NONINFRINGEMENT. IN NO EVENT
SHALL THE AUTHORS OR COPYRIGHT HOLDERS BE LIABLE FOR ANY
CLAIM, DAMAGES OR OTHER LIABILITY, WHETHER IN AN ACTION
OF CONTRACT, TORT OR OTHERWISE, ARISING FROM, OUT OF OR
IN CONNECTION WITH THE SOFTWARE OR THE USE OR OTHER
DEALINGS IN THE SOFTWARE.
";

fn log() -> Rc<RefCell<Vec<String>>> {
    Rc::new(RefCell::new(Vec::new()))
}

#[test]
fn asset_loader() {
    assert_eq!(FooLoader.load((), &b"Foo(foo: 42)"[..]), Ok(Foo { foo: 42 }));
}

#[test]
fn second_load_shares_the_cached_value() {
    let log = log();
    let store = MemStore::new("memory", &log);
    store.put("greeting", "hello");
    let mut assets: Assets<MemStore, Text> =
        Assets::new().with_store(store).with_loader(TextLoader { calls: 0 });
    let first = assets.load("greeting", ()).ok().unwrap();
    assert_eq!(first.get(), &Text("hello".to_string()));
    let second = assets.load("greeting", ()).ok().unwrap();
    assert!(Handle::ptr_eq(&first, &second));
    assert_eq!(log.borrow().len(), 1);
}

#[test]
fn load_with_uses_the_given_loader_once() {
    let log = log();
    let store = MemStore::new("memory", &log);
    store.put("greeting", "hello");
    let mut assets: Assets<MemStore, Text> = Assets::new().with_store(store);
    let mut loader = TextLoader { calls: 0 };
    let first = assets.load_with("greeting", (), &mut loader).ok().unwrap();
    let second = assets.load_with("greeting", (), &mut loader).ok().unwrap();
    assert_eq!(second.get(), &Text("hello".to_string()));
    assert!(Handle::ptr_eq(&first, &second));
    assert_eq!(loader.calls, 1);
    assert_eq!(log.borrow().len(), 1);
    // The registered-loader path shares the same cache.
    let third = assets.load("greeting", ()).ok().unwrap();
    assert!(Handle::ptr_eq(&first, &third));
}

#[test]
fn missing_loader_is_reported_before_any_store() {
    let log = log();
    let store = MemStore::new("memory", &log);
    let mut assets: Assets<MemStore, Foo> = Assets::new().with_store(store);
    match assets.load("x", ()) {
        Err(LoadError::LoaderNotRegistered { kind }) => assert_eq!(kind, "Foo"),
        _ => panic!("expected LoaderNotRegistered"),
    }
    assert!(log.borrow().is_empty());
}

#[test]
fn decode_failure_caches_nothing() {
    let log = log();
    let store = MemStore::new("memory", &log);
    store.put("foo", "Foo(foo: abc)");
    let mut assets: Assets<MemStore, Foo> = Assets::new().with_store(store.clone()).with_loader(FooLoader);
    match assets.load("foo", ()) {
        Err(LoadError::Decode { kind, id, .. }) => {
            assert_eq!(kind, "Foo");
            assert_eq!(id, "foo");
        }
        _ => panic!("expected a decode error"),
    }
    store.put("foo", "Foo(foo: 7)");
    let loaded = assets.load("foo", ()).ok().unwrap();
    assert_eq!(loaded.get(), &Foo { foo: 7 });
    assert_eq!(log.borrow().len(), 2);
}

#[test]
fn missing_asset_caches_nothing() {
    let log = log();
    let store = MemStore::new("memory", &log);
    let mut assets: Assets<MemStore, Text> =
        Assets::new().with_store(store.clone()).with_loader(TextLoader { calls: 0 });
    assert!(matches!(assets.load("late", ()), Err(LoadError::NotFound { .. })));
    store.put("late", "now here");
    let loaded = assets.load("late", ()).ok().unwrap();
    assert_eq!(loaded.get(), &Text("now here".to_string()));
    assert_eq!(log.borrow().len(), 2);
}

#[test]
fn stores_are_tried_in_order() {
    let log = log();
    let a = MemStore::new("A", &log);
    let b = MemStore::new("B", &log);
    b.put("x", "from b");
    let mut assets: Assets<MemStore, Text> =
        Assets::new().with_store(a).with_store(b).with_loader(TextLoader { calls: 0 });
    let loaded = assets.load("x", ()).ok().unwrap();
    assert_eq!(loaded.get(), &Text("from b".to_string()));
    assert_eq!(*log.borrow(), vec!["A:x".to_string(), "B:x".to_string()]);
}

#[test]
fn first_store_that_has_the_asset_wins() {
    let log = log();
    let a = MemStore::new("A", &log);
    let b = MemStore::new("B", &log);
    a.put("x", "from a");
    b.put("x", "from b");
    let mut stores = vec![a, b];
    let fetched = fetch_first(&mut stores, "x");
    assert!(fetched.failures.is_empty());
    assert_eq!(fetched.found, Some((0, b"from a".to_vec())));
    assert_eq!(*log.borrow(), vec!["A:x".to_string()]);
}

#[test]
fn every_store_failure_is_reported() {
    let log = log();
    let a = MemStore::new("A", &log);
    let b = MemStore::new("B", &log);
    let mut assets: Assets<MemStore, Text> =
        Assets::new().with_store(a).with_store(b).with_loader(TextLoader { calls: 0 });
    match assets.load("x", ()) {
        Err(LoadError::NotFound { kind, id, failures }) => {
            assert_eq!(kind, "Text");
            assert_eq!(id, "x");
            assert_eq!(failures.len(), 2);
            assert_eq!(failures[0].store, 0);
            assert_eq!(failures[0].kind, "A");
            assert_eq!(failures[0].error, "A has no x");
            assert_eq!(failures[1].store, 1);
            assert_eq!(failures[1].kind, "B");
            assert_eq!(failures[1].error, "B has no x");
        }
        _ => panic!("expected NotFound"),
    }
}

#[test]
fn no_store_means_not_found() {
    let mut assets: Assets<MemStore, Text> = Assets::new().with_loader(TextLoader { calls: 0 });
    match assets.load("x", ()) {
        Err(LoadError::NotFound { failures, .. }) => assert!(failures.is_empty()),
        _ => panic!("expected NotFound"),
    }
}

#[test]
fn insert_decoded_keeps_the_first_value() {
    let mut assets: Assets<MemStore, Text> = Assets::new();
    let first = assets.insert_decoded::<String>("k", Ok(Text("one".to_string()))).ok().unwrap();
    assert_eq!(first.get(), &Text("one".to_string()));
    let again = assets.insert_decoded::<String>("k", Ok(Text("two".to_string()))).ok().unwrap();
    assert!(Handle::ptr_eq(&first, &again));
    assert_eq!(again.get(), &Text("one".to_string()));
}

#[test]
fn insert_decoded_reports_the_cause() {
    let mut assets: Assets<MemStore, Text> = Assets::new();
    match assets.insert_decoded("k", Err("bad bytes".to_string())) {
        Err(LoadError::Decode { kind, id, cause }) => {
            assert_eq!(kind, "Text");
            assert_eq!(id, "k");
            assert_eq!(cause, "bad bytes");
        }
        _ => panic!("expected a decode error"),
    }
    let later = assets.insert_decoded::<String>("k", Ok(Text("good".to_string()))).ok().unwrap();
    assert_eq!(later.get(), &Text("good".to_string()));
}

#[test]
fn asset_manager() {
    let log = log();
    let store = MemStore::new("memory", &log);
    store.put("LICENSE-MIT", LICENSE_MIT);
    let mut manager: Assets<MemStore, Text> =
        Assets::new().with_store(store).with_loader(TextLoader { calls: 0 });
    assert_eq!(&Text(String::from(LICENSE_MIT)), manager.load("LICENSE-MIT", ()).ok().unwrap().get());
}
