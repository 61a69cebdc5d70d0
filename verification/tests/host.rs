use pied_piper::assoc::TextMap;
use pied_piper::wasm::host::{
    http_pack, http_reply_to_guest, http_result, read_body, read_guest, read_url, storage_delete,
    storage_get, storage_list_count, storage_set, write_guest, HostError,
    HostFunctions, guest_blake3, component_blake3,
};
use pied_piper::wasm::loader::cache::ModuleLoader;
use pied_piper::wasm::loader::ModuleCid;

#[test]
fn host_reads_guest_memory_in_bounds_only() {
    let mem = b"hello world".to_vec();
    assert_eq!(read_guest(&mem, 6, 5), Some(b"world".to_vec()));
    assert_eq!(read_guest(&mem, 0, 0), Some(vec![]));
    assert_eq!(read_guest(&mem, 6, 6), None);
    assert_eq!(read_guest(&mem, -1, 2), None);
    assert_eq!(read_guest(&mem, 2, -1), None);
    assert_eq!(read_guest(&mem, i32::MAX, 1), None);
}

#[test]
fn host_writes_at_most_the_buffer() {
    let mut mem = vec![0u8; 8];
    assert_eq!(write_guest(&mut mem, 2, b"abcdef", 3), Some(3));
    assert_eq!(mem, vec![0, 0, b'a', b'b', b'c', 0, 0, 0]);
    // a negative limit counts as no limit
    let mut mem = vec![0u8; 4];
    assert_eq!(write_guest(&mut mem, 1, b"xyz", -1), Some(3));
    assert_eq!(mem, vec![0, b'x', b'y', b'z']);
    let mut mem = vec![0u8; 4];
    assert_eq!(write_guest(&mut mem, 2, b"xyz", 10), None);
    assert_eq!(mem, vec![0u8; 4]);
    assert_eq!(write_guest(&mut mem, -1, b"x", 1), None);
}

#[test]
fn host_storage_set_get_delete() {
    let mut store: TextMap<Vec<u8>> = TextMap::new();
    let mut mem = b"keyvalue".to_vec();
    mem.extend_from_slice(&[0u8; 8]);
    assert_eq!(storage_set(&mut store, &mem, 0, 3, 3, 5), Ok(0));
    assert_eq!(storage_list_count(&store), 1);
    // reads "key" and writes the value at 8
    assert_eq!(storage_get(&store, &mut mem, 0, 3, 8, 100), Ok(5));
    assert_eq!(&mem[8..13], b"value");
    // a short buffer gets a prefix
    assert_eq!(storage_get(&store, &mut mem, 0, 3, 13, 2), Ok(2));
    assert_eq!(&mem[13..15], b"va");
    // an unknown key answers -1
    assert_eq!(storage_get(&store, &mut mem, 3, 3, 8, 100), Ok(-1));
    assert_eq!(storage_get(&store, &mut mem, 0, 3, 15, 100), Err(HostError::InvalidOutput));
    assert_eq!(storage_get(&store, &mut mem, 0, 100, 8, 1), Err(HostError::InvalidKey));
    assert_eq!(storage_set(&mut store, &mem, 0, 3, 10, 100), Err(HostError::InvalidValue));
    assert_eq!(storage_delete(&mut store, &mem, 0, 3), Ok(1));
    assert_eq!(storage_delete(&mut store, &mem, 0, 3), Ok(0));
    assert_eq!(storage_list_count(&store), 0);
    assert_eq!(HostError::InvalidKey.message(), "Invalid memory access for key");
}

#[test]
fn host_http_results_and_packing() {
    assert_eq!(http_result(Some((201, Some(b"ok".to_vec())))), (201, b"ok".to_vec()));
    assert_eq!(http_result(Some((200, None))), (500, vec![]));
    assert_eq!(http_result(None), (0, vec![]));
    assert_eq!(http_pack(200, 5), (200i64 << 32) | 5);
    let mut mem = vec![0u8; 4];
    assert_eq!(http_reply_to_guest(&mut mem, 0, 2, Some((404, Some(b"nope".to_vec())))), Ok((404i64 << 32) | 2));
    assert_eq!(&mem[..2], b"no");
    assert_eq!(http_reply_to_guest(&mut mem, 3, 4, Some((200, Some(b"abc".to_vec())))), Err(HostError::InvalidOutput));
    let mem = b"http://x".to_vec();
    assert_eq!(read_url(&mem, 0, 8), Ok("http://x".to_string()));
    assert_eq!(read_url(&mem, 0, 9), Err(HostError::InvalidUrl));
    assert_eq!(read_body(&mem, 7, 1), Ok(b"x".to_vec()));
    assert_eq!(read_body(&mem, 7, 2), Err(HostError::InvalidBody));
}

#[test]
fn loader_caches_and_finds_modules() {
    let mut loader = ModuleLoader::new("/tmp/cache".to_string());
    let (info, bytes) = loader.load_from_bytes(b"\0asm\x01\0\0\0".to_vec(), Some("m".to_string()));
    assert_eq!(info.cid, ModuleCid::from_bytes(b"\0asm\x01\0\0\0"));
    assert_eq!(info.name.as_deref(), Some("m"));
    assert_eq!(info.size, 8);
    assert_eq!(bytes, b"\0asm\x01\0\0\0".to_vec());
    assert!(loader.is_cached(&info.cid));
    assert_eq!(loader.cache_stats(), (1, 1));
    let (i2, b2) = loader.get_cached(&info.cid).unwrap();
    assert_eq!(i2.name.as_deref(), Some("m"));
    assert_eq!(b2, bytes);
    assert!(loader.get_cached(&ModuleCid::new("bother".to_string())).is_none());
    loader.clear_memory_cache();
    assert_eq!(loader.cache_stats(), (0, 0));
    assert!(!loader.is_cached(&info.cid));
}

#[test]
fn loader_admits_from_disk_and_names_files() {
    let mut loader = ModuleLoader::new("/var/cache".to_string());
    let cid = ModuleCid::new("babc".to_string());
    let (info, bytes) = loader.admit_from_disk(&cid, vec![1, 2, 3]);
    assert_eq!(info.cid, cid);
    assert_eq!(info.size, 3);
    assert!(info.name.is_none());
    assert_eq!(bytes, vec![1, 2, 3]);
    assert!(loader.get_cached(&cid).is_some());
    assert_eq!(loader.module_file(&cid), "/var/cache/babc.wasm");
    assert_eq!(loader.info_file(&cid), "/var/cache/babc.json");
    let (named, _) = loader.load_file_bytes("/mods/hello.wasm", vec![9]);
    assert_eq!(named.name.as_deref(), Some("hello"));
}

#[test]
fn loader_evicts_least_recent_past_the_limit() {
    let mut loader = ModuleLoader::new("/c".to_string());
    let a = ModuleCid::new("ba".to_string());
    let b = ModuleCid::new("bb".to_string());
    let big = vec![0u8; 300 * 1024 * 1024];
    loader.admit_from_disk(&a, big.clone());
    loader.admit_from_disk(&b, big);
    // 600 MiB is over the 512 MiB limit: the older module leaves
    assert!(!loader.is_cached(&a));
    assert!(loader.is_cached(&b));
    assert_eq!(loader.cache_stats(), (1, 1));
}

#[test]
fn loader_update_module_info_replaces_info() {
    let mut loader = ModuleLoader::new("/c".to_string());
    let cid = ModuleCid::new("bz".to_string());
    loader.admit_from_disk(&cid, vec![1]);
    let (mut info, _) = loader.get_cached(&cid).unwrap();
    info.version = Some("2.0.0".to_string());
    loader.update_module_info(&cid, info);
    let (again, _) = loader.get_cached(&cid).unwrap();
    assert_eq!(again.version.as_deref(), Some("2.0.0"));
}

use pied_piper::storage::{key_from_stem, storage_file_stem, PersistentStorage};

#[test]
fn storage_file_names_round_trip() {
    assert_eq!(storage_file_stem("user:1"), hex::encode("user:1"));
    assert_eq!(key_from_stem(&storage_file_stem("ключ")), Some("ключ".to_string()));
    assert_eq!(key_from_stem("zz"), None);
    assert_eq!(key_from_stem("ff"), None);
}

#[test]
fn storage_loads_set_get_delete() {
    let files = vec![
        (format!("/s/{}.dat", hex::encode("a")), b"1".to_vec()),
        ("/s/readme.txt".to_string(), b"x".to_vec()),
        ("/s/zz.dat".to_string(), b"y".to_vec()),
        (format!("/s/{}.dat", hex::encode("b")), b"2".to_vec()),
    ];
    let mut s = PersistentStorage::from_files("/s".to_string(), files);
    assert_eq!(s.len(), 2);
    assert_eq!(s.get("a"), Some(b"1".to_vec()));
    assert_eq!(s.get("b"), Some(b"2".to_vec()));
    let path = s.set("c", b"3".to_vec());
    assert_eq!(path, format!("/s/{}.dat", hex::encode("c")));
    assert_eq!(s.get("c"), Some(b"3".to_vec()));
    let gone = s.delete("a");
    assert_eq!(gone, format!("/s/{}.dat", hex::encode("a")));
    assert_eq!(s.get("a"), None);
    assert!(!s.is_empty());
}

use pied_piper::wasm::loader::cache::{DependencyLoad, LoadStep};
use pied_piper::wasm::loader::ModuleInfo;

fn module(cid: &str, deps: &[&str]) -> ModuleInfo {
    ModuleInfo {
        cid: ModuleCid::new(cid.to_string()),
        name: Some(cid.to_string()),
        version: None,
        size: 1,
        dependencies: deps.iter().map(|d| ModuleCid::new(d.to_string())).collect(),
        author: None,
        description: None,
    }
}

fn run_load(loader: &mut ModuleLoader, root: &str, disk: &[(&str, Vec<u8>)]) -> Result<Vec<String>, String> {
    let mut load = DependencyLoad::new(&ModuleCid::new(root.to_string()));
    loop {
        match load.step(loader) {
            LoadStep::Continue => {}
            LoadStep::NeedDisk(cid) => {
                let found = disk
                    .iter()
                    .find(|(c, _)| *c == cid.0)
                    .map(|(_, b)| loader.admit_from_disk(&cid, b.clone()));
                if let Some(message) = load.supply(found) {
                    return Err(message);
                }
            }
            LoadStep::Done(v) => return Ok(v.into_iter().map(|(i, _)| i.cid.0).collect()),
        }
    }
}

#[test]
fn loader_loads_dependencies_first_and_once() {
    let mut loader = ModuleLoader::new("/c".to_string());
    loader.add_to_cache(&ModuleCid::new("ba".to_string()), module("ba", &["bb", "bc"]), vec![1]);
    loader.add_to_cache(&ModuleCid::new("bb".to_string()), module("bb", &["bc"]), vec![2]);
    loader.add_to_cache(&ModuleCid::new("bc".to_string()), module("bc", &[]), vec![3]);
    assert_eq!(run_load(&mut loader, "ba", &[]), Ok(vec!["bc".to_string(), "bb".to_string(), "ba".to_string()]));
}

#[test]
fn loader_dependency_from_disk_or_missing() {
    let mut loader = ModuleLoader::new("/c".to_string());
    loader.add_to_cache(&ModuleCid::new("ba".to_string()), module("ba", &["bd"]), vec![1]);
    assert_eq!(run_load(&mut loader, "ba", &[("bd", vec![4])]), Ok(vec!["bd".to_string(), "ba".to_string()]));
    let mut loader = ModuleLoader::new("/c".to_string());
    loader.add_to_cache(&ModuleCid::new("ba".to_string()), module("ba", &["bx"]), vec![1]);
    assert_eq!(run_load(&mut loader, "ba", &[]), Err("Module bx not found in cache".to_string()));
}

#[test]
fn test_host_functions_creation() {
    let host_funcs = HostFunctions::new();
    let logs = host_funcs.get_logs();
    assert_eq!(logs.len(), 0);
}

#[test]
fn test_clear_logs() {
    let mut host_funcs = HostFunctions::new();
    host_funcs.clear_logs();
    let logs = host_funcs.get_logs();
    assert_eq!(logs.len(), 0);
}

#[test]
fn host_log_appends_guest_text_in_order() {
    let mut host = HostFunctions::new();
    let mem = b"first second".to_vec();
    assert_eq!(host.log(&mem, 0, 5), Ok(()));
    assert_eq!(host.log(&mem, 6, 6), Ok(()));
    assert_eq!(host.log(&mem, 6, 7), Err(HostError::InvalidMemory));
    assert_eq!(HostError::InvalidMemory.message(), "Invalid memory access");
    host.log_message("third".to_string());
    assert_eq!(host.get_logs(), vec!["first".to_string(), "second".to_string(), "third".to_string()]);
    // invalid UTF-8 is logged with replacement characters
    let bad = vec![b'a', 0xff, b'b'];
    assert_eq!(host.log(&bad, 0, 3), Ok(()));
    assert_eq!(host.get_logs()[3], "a\u{FFFD}b");
    host.clear_logs();
    assert!(host.get_logs().is_empty());
}

#[test]
fn host_component_storage_round_trip() {
    let mut host = HostFunctions::new();
    assert_eq!(host.component_storage_get("k"), (false, vec![]));
    assert!(host.component_storage_set("k".to_string(), b"v1".to_vec()));
    assert!(host.component_storage_set("j".to_string(), b"w".to_vec()));
    assert!(host.component_storage_set("k".to_string(), b"v2".to_vec()));
    assert_eq!(host.component_storage_get("k"), (true, b"v2".to_vec()));
    assert_eq!(host.component_storage_list_count(), 2);
    assert!(host.component_storage_delete("k"));
    assert!(!host.component_storage_delete("k"));
    assert_eq!(host.component_storage_get("k"), (false, vec![]));
    assert_eq!(host.component_storage_list_count(), 1);
    // clearing the log keeps the storage
    host.log_message("x".to_string());
    host.clear_logs();
    assert_eq!(host.component_storage_get("j"), (true, b"w".to_vec()));
}

#[test]
fn host_blake3_writes_digest_into_guest_memory() {
    let expected = blake3::hash(b"abc");
    let mut mem = vec![0u8; 40];
    mem[0..3].copy_from_slice(b"abc");
    assert_eq!(guest_blake3(&mut mem, 0, 3, 8), Ok(()));
    assert_eq!(&mem[8..40], expected.as_bytes());
    assert_eq!(&mem[0..3], b"abc");
    // output does not fit
    let mut mem2 = vec![0u8; 40];
    mem2[0..3].copy_from_slice(b"abc");
    assert_eq!(guest_blake3(&mut mem2, 0, 3, 9), Err(HostError::InvalidOutput));
    assert_eq!(&mem2[3..], &[0u8; 37][..]);
    // input out of bounds
    assert_eq!(guest_blake3(&mut mem2, 30, 20, 0), Err(HostError::InvalidInput));
    assert_eq!(HostError::InvalidInput.message(), "Invalid memory access for input");
    assert_eq!(component_blake3(b"abc"), expected.as_bytes().to_vec());
    assert_ne!(component_blake3(b"abc"), b"abc".to_vec());
}

#[test]
fn test_load_from_bytes() {
    let mut loader = ModuleLoader::new("/tmp/pied-piper-test-cache".to_string());

    let test_bytes = vec![0x00, 0x61, 0x73, 0x6d, 0x01, 0x00, 0x00, 0x00]; // Wasm magic
    let (info, _) = loader.load_from_bytes(test_bytes, Some("test".to_string()));
    assert_eq!(info.name, Some("test".to_string()));
}
