use rainforest::components::Item;

#[test]
fn item_names() {
    assert_eq!(Item::Flower.to_string(), "flower");
    assert_eq!(Item::Tea.to_string(), "tea");
    assert_eq!(Item::Rock.to_string(), "rock");
}
