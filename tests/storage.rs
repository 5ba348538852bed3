use crayon_video::bytes_loader::BytesLoader;
use crayon_video::component::{Component, ComponentStorage, HashMapStorage, VecStorage};
use crayon_video::handle::Handle;

struct Position {
    x: i32,
}

impl Component for Position {
    type Storage = VecStorage<Position>;

    fn type_index() -> usize {
        0
    }
}

fn exercise<S: ComponentStorage<u64>>() {
    let mut s = S::new();
    assert_eq!(s.get(3), None);
    s.insert(3, 30);
    s.insert(0, 1);
    assert_eq!(s.get(3), Some(&30));
    assert_eq!(s.get(0), Some(&1));
    assert_eq!(s.get(1), None);
    s.insert(3, 31);
    assert_eq!(s.get(3), Some(&31));
    assert_eq!(s.remove(3), Some(31));
    assert_eq!(s.remove(3), None);
    assert_eq!(s.get(3), None);
    assert_eq!(s.remove(1000), None);
    assert_eq!(s.get(0), Some(&1));
}

#[test]
fn vec_storage_tracks_occupancy() {
    exercise::<VecStorage<u64>>();
}

#[test]
fn hash_map_storage_tracks_occupancy() {
    exercise::<HashMapStorage<u64>>();
}

#[test]
fn component_storage_of_a_component() {
    let mut s = <Position as Component>::Storage::new();
    s.insert(7, Position { x: -4 });
    assert_eq!(s.get(7).map(|p| p.x), Some(-4));
    assert_eq!(Position::type_index(), 0);
}

#[test]
fn bytes_loader_keeps_bytes() {
    let loader = BytesLoader::new();
    let data = loader.load(Handle::new(0, 0), &[1, 2, 3]);
    assert_eq!(data, vec![1, 2, 3]);
    let res = loader.create(Handle::new(0, 0), data);
    assert_eq!(*res, vec![1, 2, 3]);
}
