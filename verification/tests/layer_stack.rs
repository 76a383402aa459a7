use paint_type::layers::LayerStack;
use paint_type::tile::{LayerId, LayerStackError, TileError};

struct Layer {
    name: String,
}

impl Layer {
    fn new(name: &str) -> Layer {
        Layer { name: name.to_string() }
    }
}

#[test]
fn stack_new_is_empty() {
    let s: LayerStack<Layer> = LayerStack::new();
    assert_eq!(s.len(), 0);
    assert!(s.is_empty());
}

#[test]
fn stack_push_returns_distinct_ids() {
    let mut s = LayerStack::new();
    let a = s.push(Layer::new("bg"));
    let b = s.push(Layer::new("fg"));
    assert_ne!(a, b);
    assert_eq!(s.len(), 2);
}

#[test]
fn stack_get_by_id_after_reorder() {
    let mut s = LayerStack::new();
    let bg = s.push(Layer::new("bg"));
    let fg = s.push(Layer::new("fg"));
    s.reorder_to(bg, 1).expect("reorder");
    assert_eq!(s.position_of(bg), Some(1));
    assert_eq!(s.position_of(fg), Some(0));
    assert_eq!(s.get(bg).map(|l| l.name.as_str()), Some("bg"));
    assert_eq!(s.get(fg).map(|l| l.name.as_str()), Some("fg"));
}

#[test]
fn stack_delete_returns_layer_and_removes_id() {
    let mut s = LayerStack::new();
    let id = s.push(Layer::new("doomed"));
    let removed = s.delete(id);
    assert!(removed.is_some());
    assert_eq!(removed.unwrap().name, "doomed");
    assert!(s.get(id).is_none());
    assert!(s.is_empty());
}

#[test]
fn stack_delete_unknown_id_is_none() {
    let mut s = LayerStack::new();
    let _id = s.push(Layer::new("a"));
    let fake = LayerId::from_u32(99_999);
    assert!(s.delete(fake).is_none());
}

#[test]
fn stack_reorder_out_of_bounds_errors() {
    let mut s = LayerStack::new();
    let a = s.push(Layer::new("a"));
    s.push(Layer::new("b"));
    let err = s.reorder_to(a, 99);
    assert_eq!(err, Err(LayerStackError::PositionOutOfBounds));
}

#[test]
fn stack_reorder_unknown_id_errors() {
    let mut s = LayerStack::new();
    s.push(Layer::new("a"));
    let err = s.reorder_to(LayerId::from_u32(99_999), 0);
    assert_eq!(err, Err(LayerStackError::UnknownLayer));
}

#[test]
fn stack_iter_bottom_up() {
    let mut s = LayerStack::new();
    s.push(Layer::new("bg"));
    s.push(Layer::new("mid"));
    s.push(Layer::new("fg"));
    let names: Vec<&str> = s.iter().iter().map(|(_, l)| l.name.as_str()).collect();
    assert_eq!(names, vec!["bg", "mid", "fg"]);
}

#[test]
fn stack_ids_never_reused() {
    let mut s = LayerStack::new();
    let a = s.push(Layer::new("a"));
    s.delete(a);
    let b = s.push(Layer::new("b"));
    assert_ne!(a, b, "deleted IDs must not be reused");
}

#[test]
fn reorder_moves_one_layer_and_shifts_the_rest() {
    let mut s = LayerStack::new();
    let a = s.push(Layer::new("a"));
    let b = s.push(Layer::new("b"));
    let c = s.push(Layer::new("c"));
    assert_eq!(s.reorder_to(c, 0), Ok(2));
    let order: Vec<LayerId> = s.iter().iter().map(|(id, _)| *id).collect();
    assert_eq!(order, vec![c, a, b]);
    assert_eq!(s.reorder_to(a, 1), Ok(1));
    assert_eq!(s.get_at(0).map(|l| l.name.as_str()), Some("c"));
    assert!(s.get_at(3).is_none());
    assert_eq!(a.as_u32(), 0);
    assert_eq!(b.as_u32(), 1);
    assert_eq!(c.as_u32(), 2);
}

#[test]
fn get_mut_edits_in_place() {
    let mut s = LayerStack::new();
    let a = s.push(Layer::new("a"));
    s.get_mut(a).unwrap().name.push_str("-renamed");
    assert_eq!(s.get(a).unwrap().name, "a-renamed");
    assert!(s.get_mut(LayerId::from_u32(7)).is_none());
    let e: LayerStackError = TileError::Busy.into();
    assert_eq!(e, LayerStackError::Tile(TileError::Busy));
}
