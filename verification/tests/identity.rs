use crush::util::identity_arc::Identity;
use std::collections::HashMap;
use std::sync::Arc;

#[test]
fn arc_identity() {
    for j in 0..10 {
        println!("{}", j);
        let mut d = HashMap::new();
        for _ in 0..10_000 {
            let arc: Arc<String> = Arc::from("hello".to_string().repeat(10));
            let id = arc.id();
            println!("{}", id);
            assert_eq!(id, arc.id());
            assert!(!d.contains_key(&id));
            d.insert(id, arc);
            assert!(d.contains_key(&id));
        }
        for (k, v) in d {
            assert_eq!(k, v.id())
        }
    }
}
