use assetcache::osx::{register_fn, OsxSymbol};

#[test]
fn host_bindings() {
    assert!(matches!(register_fn("libSystem", "_malloc"), OsxSymbol::Malloc));
    assert!(matches!(register_fn("libSystem", "____chkstk_darwin"), OsxSymbol::Null));
    assert!(matches!(register_fn("libSystem", "_arc4random"), OsxSymbol::Arc4random));
    assert!(matches!(register_fn("libSystem", "_whatever"), OsxSymbol::NotImplement));
}

#[test]
fn forwarded_imports_drop_the_underscore() {
    match register_fn("/System/Library/Frameworks/IOKit", "_IOIteratorNext") {
        OsxSymbol::Dynamic { dylib, name } => {
            assert_eq!(dylib, "/System/Library/Frameworks/IOKit");
            assert_eq!(name, "IOIteratorNext");
        }
        _ => panic!("expected a lookup"),
    }
    match register_fn("CF", "___CFConstantStringClassReference") {
        OsxSymbol::Dynamic { name, .. } => assert_eq!(name, "__CFConstantStringClassReference"),
        _ => panic!("expected a lookup"),
    }
    match register_fn("libSystem", "_pthread_once") {
        OsxSymbol::Dynamic { dylib, name } => {
            assert_eq!(dylib, "libSystem");
            assert_eq!(name, "pthread_once");
        }
        _ => panic!("expected a lookup"),
    }
}
