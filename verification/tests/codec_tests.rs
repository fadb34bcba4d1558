use ktx2_rw::{Error, Ktx2Texture, VkFormat};

#[test]
fn test_write_to_memory() {
    let texture = Ktx2Texture::create(256, 256, 1, 1, 1, 1, VkFormat::R8G8B8A8Unorm).unwrap();

    let result = texture.write_to_memory();
    assert!(result.is_ok());

    let data = result.unwrap();
    assert!(!data.is_empty());

    // Should start with KTX2 identifier
    assert!(data.len() >= 12);
    // KTX2 files start with specific bytes
    let expected_header = [
        0xAB, 0x4B, 0x54, 0x58, 0x20, 0x32, 0x30, 0xBB, 0x0D, 0x0A, 0x1A, 0x0A,
    ];
    assert_eq!(&data[0..12], &expected_header);
}

#[test]
fn test_texture_from_empty_memory() {
    let empty_data: &[u8] = &[];
    let result = Ktx2Texture::from_memory(empty_data);
    assert!(result.is_err());
}

#[test]
fn test_texture_from_invalid_memory() {
    let invalid_data = vec![0u8; 100]; // Random data, not a valid KTX2 file
    let result = Ktx2Texture::from_memory(&invalid_data);
    assert!(result.is_err());
}

#[test]
fn test_serialized_layout_exact() {
    // a 4x4 RGBA8 texture: 80 header bytes, one 24-byte level-index entry,
    // no metadata, 64 image bytes
    let texture = Ktx2Texture::create(4, 4, 1, 1, 1, 1, VkFormat::R8G8B8A8Unorm).unwrap();
    let data = texture.write_to_memory().unwrap();
    assert_eq!(data.len(), 80 + 24 + 64);
    // vkFormat word
    assert_eq!(&data[12..16], &[37, 0, 0, 0]);
    // pixel width
    assert_eq!(&data[20..24], &[4, 0, 0, 0]);
    // level 0 byte offset = 104, byte length = 64
    assert_eq!(&data[80..88], &[104, 0, 0, 0, 0, 0, 0, 0]);
    assert_eq!(&data[88..96], &[64, 0, 0, 0, 0, 0, 0, 0]);
}

#[test]
fn test_serialize_parse_round_trip() {
    let mut texture = Ktx2Texture::create(4, 4, 1, 1, 1, 1, VkFormat::R8G8B8A8Unorm).unwrap();
    let image: Vec<u8> = (0u32..64).map(|i| (255 - i) as u8).collect();
    texture.set_image_data(0, 0, 0, &image).unwrap();
    texture.set_metadata("orientation", b"rd").unwrap();

    let bytes = texture.write_to_memory().unwrap();
    let reloaded = Ktx2Texture::from_memory(&bytes).unwrap();

    assert_eq!(reloaded.width(), texture.width());
    assert_eq!(reloaded.height(), texture.height());
    assert_eq!(reloaded.vk_format(), texture.vk_format());
    assert_eq!(
        reloaded.get_image_data(0, 0, 0).unwrap(),
        texture.get_image_data(0, 0, 0).unwrap()
    );
    assert_eq!(reloaded.get_metadata("orientation").unwrap(), b"rd");
}

#[test]
fn test_round_trip_cubemap_array_mipmapped() {
    let mut texture = Ktx2Texture::create(8, 8, 1, 1, 6, 2, VkFormat::R8G8B8A8Unorm).unwrap();
    for face in 0..6u32 {
        let image = vec![face as u8 + 1; 8 * 8 * 4];
        texture.set_image_data(0, 0, face, &image).unwrap();
        let small = vec![face as u8 + 101; 4 * 4 * 4];
        texture.set_image_data(1, 0, face, &small).unwrap();
    }
    let bytes = texture.write_to_memory().unwrap();
    let reloaded = Ktx2Texture::from_memory(&bytes).unwrap();
    assert!(reloaded.is_cubemap());
    assert_eq!(reloaded.levels(), 2);
    for face in 0..6u32 {
        assert_eq!(
            reloaded.get_image_data(0, 0, face).unwrap(),
            texture.get_image_data(0, 0, face).unwrap()
        );
        assert_eq!(
            reloaded.get_image_data(1, 0, face).unwrap(),
            texture.get_image_data(1, 0, face).unwrap()
        );
    }
}

#[test]
fn test_from_memory_truncated_after_signature() {
    let texture = Ktx2Texture::create(4, 4, 1, 1, 1, 1, VkFormat::R8G8B8A8Unorm).unwrap();
    let bytes = texture.write_to_memory().unwrap();
    let truncated = &bytes[0..40];
    assert_eq!(
        Ktx2Texture::from_memory(truncated).unwrap_err(),
        Error::FileDataError
    );
}

#[test]
fn test_from_memory_bad_signature() {
    let texture = Ktx2Texture::create(4, 4, 1, 1, 1, 1, VkFormat::R8G8B8A8Unorm).unwrap();
    let mut bytes = texture.write_to_memory().unwrap();
    bytes[0] = 0x00;
    assert_eq!(
        Ktx2Texture::from_memory(&bytes).unwrap_err(),
        Error::UnknownFileFormat
    );
}

#[test]
fn test_from_memory_supercompressed_rejected() {
    let texture = Ktx2Texture::create(4, 4, 1, 1, 1, 1, VkFormat::R8G8B8A8Unorm).unwrap();
    let mut bytes = texture.write_to_memory().unwrap();
    // supercompressionScheme word
    bytes[44] = 1;
    assert_eq!(
        Ktx2Texture::from_memory(&bytes).unwrap_err(),
        Error::UnsupportedFeature
    );
}

#[test]
fn test_from_memory_unknown_format_rejected() {
    let texture = Ktx2Texture::create(4, 4, 1, 1, 1, 1, VkFormat::R8G8B8A8Unorm).unwrap();
    let mut bytes = texture.write_to_memory().unwrap();
    // vkFormat word: 38 is not in the known set
    bytes[12] = 38;
    assert_eq!(
        Ktx2Texture::from_memory(&bytes).unwrap_err(),
        Error::UnsupportedTextureType
    );
}

#[test]
fn test_from_memory_corrupt_level_index() {
    let texture = Ktx2Texture::create(4, 4, 1, 1, 1, 1, VkFormat::R8G8B8A8Unorm).unwrap();
    let mut bytes = texture.write_to_memory().unwrap();
    // level 0 byte length word
    bytes[88] = 63;
    assert_eq!(
        Ktx2Texture::from_memory(&bytes).unwrap_err(),
        Error::FileDataError
    );
}

#[test]
fn test_from_memory_trailing_garbage_rejected() {
    let texture = Ktx2Texture::create(4, 4, 1, 1, 1, 1, VkFormat::R8G8B8A8Unorm).unwrap();
    let mut bytes = texture.write_to_memory().unwrap();
    bytes.push(0);
    assert_eq!(
        Ktx2Texture::from_memory(&bytes).unwrap_err(),
        Error::FileDataError
    );
}

#[test]
fn test_from_memory_zero_length_metadata_entry() {
    let mut texture = Ktx2Texture::create(4, 4, 1, 1, 1, 1, VkFormat::R8G8B8A8Unorm).unwrap();
    texture.set_metadata("orientation", b"rd").unwrap();
    let mut bytes = texture.write_to_memory().unwrap();
    // the key/value block starts right after the level index, at 104;
    // force its entry's length prefix to zero
    bytes[104] = 0;
    assert_eq!(
        Ktx2Texture::from_memory(&bytes).unwrap_err(),
        Error::FileDataError
    );
}

#[test]
fn test_from_memory_nonzero_metadata_padding() {
    let mut texture = Ktx2Texture::create(4, 4, 1, 1, 1, 1, VkFormat::R8G8B8A8Unorm).unwrap();
    texture.set_metadata("orientation", b"rd").unwrap();
    let mut bytes = texture.write_to_memory().unwrap();
    // the entry holds 4 + 11 + 1 + 2 = 18 bytes, so two padding bytes
    // follow at offsets 122 and 123
    bytes[122] = 1;
    assert_eq!(
        Ktx2Texture::from_memory(&bytes).unwrap_err(),
        Error::FileDataError
    );
}

#[test]
fn test_zero_filled_storage_round_trips() {
    let texture = Ktx2Texture::create(2, 2, 1, 1, 1, 1, VkFormat::R8Unorm).unwrap();
    let bytes = texture.write_to_memory().unwrap();
    let reloaded = Ktx2Texture::from_memory(&bytes).unwrap();
    assert_eq!(reloaded.get_image_data(0, 0, 0).unwrap(), &[0u8; 4]);
}
