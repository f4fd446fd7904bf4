use ai_types::image::{Data, Prompt, Size};

#[test]
fn test_data_type_alias() {
    let data: Data = vec![1, 2, 3, 4];
    assert_eq!(data.len(), 4);
    assert_eq!(data[0], 1);
    assert_eq!(data[3], 4);
}

#[test]
fn test_data_operations() {
    let mut data: Data = vec![0xFF; 1024];
    assert_eq!(data.len(), 1024);

    data.push(0x00);
    assert_eq!(data.len(), 1025);
    assert_eq!(data[1024], 0x00);

    data.extend_from_slice(&[0x01, 0x02]);
    assert_eq!(data.len(), 1027);
    assert_eq!(data[1025], 0x01);
    assert_eq!(data[1026], 0x02);
}

#[test]
fn test_prompt_new() {
    let prompt = Prompt::new("a cat");
    assert_eq!(prompt.text, "a cat");
    assert!(prompt.image.is_empty());
}

#[test]
fn test_prompt_with_image() {
    let prompt = Prompt::new("a cat")
        .with_image(vec![0xFF, 0xD8])
        .with_image(vec![0x00]);
    assert_eq!(prompt.text, "a cat");
    assert_eq!(prompt.image.len(), 2);
    assert_eq!(prompt.image[0], vec![0xFF, 0xD8]);
    assert_eq!(prompt.image[1], vec![0x00]);
}

#[test]
fn test_size_new() {
    let size = Size::new(640, 480);
    assert_eq!(size.width, 640);
    assert_eq!(size.height, 480);
}

#[test]
fn test_size_square() {
    let size = Size::square(256);
    assert_eq!(size.width, 256);
    assert_eq!(size.height, 256);
}
