use ktx2_rw::{Error, Ktx2Texture, TranscodeFormat, VkFormat};

fn assert_send<T: Send>() {}

fn assert_sync<T: Sync>() {}

#[test]
fn test_texture_create_valid() {
    let result = Ktx2Texture::create(256, 256, 1, 1, 1, 1, VkFormat::R8G8B8A8Unorm); // VK_FORMAT_R8G8B8A8_UNORM
    assert!(result.is_ok());

    let texture = result.unwrap();
    assert_eq!(texture.width(), 256);
    assert_eq!(texture.height(), 256);
    assert_eq!(texture.depth(), 1);
    assert_eq!(texture.layers(), 1);
    assert_eq!(texture.faces(), 1);
    assert_eq!(texture.levels(), 1);
    assert_eq!(texture.vk_format(), VkFormat::R8G8B8A8Unorm);
}

#[test]
fn test_texture_create_invalid_dimensions() {
    // Zero width should fail
    let result = Ktx2Texture::create(0, 256, 1, 1, 1, 1, VkFormat::R8G8B8A8Unorm);
    assert!(result.is_err());
    assert_eq!(result.unwrap_err(), Error::InvalidValue);

    // Zero height should fail
    let result = Ktx2Texture::create(256, 0, 1, 1, 1, 1, VkFormat::R8G8B8A8Unorm);
    assert!(result.is_err());
    assert_eq!(result.unwrap_err(), Error::InvalidValue);

    // Zero depth should fail
    let result = Ktx2Texture::create(256, 256, 0, 1, 1, 1, VkFormat::R8G8B8A8Unorm);
    assert!(result.is_err());
    assert_eq!(result.unwrap_err(), Error::InvalidValue);
}

#[test]
fn test_texture_create_excessive_dimensions() {
    // Dimensions too large should fail
    let result = Ktx2Texture::create(100000, 100000, 1, 1, 1, 1, VkFormat::R8G8B8A8Unorm);
    assert!(result.is_err());
    assert_eq!(result.unwrap_err(), Error::InvalidValue);
}

#[test]
fn test_texture_create_cubemap() {
    let result = Ktx2Texture::create(256, 256, 1, 1, 6, 1, VkFormat::R8G8B8A8Unorm); // Cubemap has 6 faces
    assert!(result.is_ok());

    let texture = result.unwrap();
    assert_eq!(texture.faces(), 6);
    assert!(texture.is_cubemap());
}

#[test]
fn test_texture_create_array() {
    let result = Ktx2Texture::create(256, 256, 1, 8, 1, 1, VkFormat::R8G8B8A8Unorm); // Array with 8 layers
    assert!(result.is_ok());

    let texture = result.unwrap();
    assert_eq!(texture.layers(), 8);
    assert!(texture.is_array());
}

#[test]
fn test_texture_create_mipmapped() {
    let result = Ktx2Texture::create(256, 256, 1, 1, 1, 9, VkFormat::R8G8B8A8Unorm); // 9 mip levels for 256x256
    assert!(result.is_ok());

    let texture = result.unwrap();
    assert_eq!(texture.levels(), 9);
}

#[test]
fn test_texture_create_3d() {
    let result = Ktx2Texture::create(128, 128, 64, 1, 1, 1, VkFormat::R8G8B8A8Unorm); // 3D texture
    assert!(result.is_ok());

    let texture = result.unwrap();
    assert_eq!(texture.width(), 128);
    assert_eq!(texture.height(), 128);
    assert_eq!(texture.depth(), 64);
}

#[test]
fn test_texture_properties() {
    let texture = Ktx2Texture::create(512, 256, 1, 4, 1, 8, VkFormat::R8G8B8A8Unorm).unwrap();

    assert_eq!(texture.width(), 512);
    assert_eq!(texture.height(), 256);
    assert_eq!(texture.depth(), 1);
    assert_eq!(texture.layers(), 4);
    assert_eq!(texture.faces(), 1);
    assert_eq!(texture.levels(), 8);
    assert_eq!(texture.vk_format(), VkFormat::R8G8B8A8Unorm);
    assert!(texture.is_array()); // 4 layers
    assert!(!texture.is_cubemap()); // 1 face
}

#[test]
fn test_texture_compression_status() {
    let texture = Ktx2Texture::create(256, 256, 1, 1, 1, 1, VkFormat::R8G8B8A8Unorm).unwrap();

    // Newly created texture should not be compressed
    assert!(!texture.is_compressed());
    assert!(!texture.needs_transcoding());
}

#[test]
fn test_texture_block_compressed_format_status() {
    let texture = Ktx2Texture::create(256, 256, 1, 1, 1, 1, VkFormat::Bc7UnormBlock).unwrap();
    assert!(texture.is_compressed());
    assert!(!texture.needs_transcoding());
}

#[test]
fn test_texture_set_image_data_empty() {
    let mut texture = Ktx2Texture::create(256, 256, 1, 1, 1, 1, VkFormat::R8G8B8A8Unorm).unwrap();
    let empty_data: &[u8] = &[];

    let result = texture.set_image_data(0, 0, 0, empty_data);
    assert!(result.is_err());
    assert_eq!(result.unwrap_err(), Error::InvalidValue);
}

#[test]
fn test_texture_set_image_data_invalid_indices() {
    let mut texture = Ktx2Texture::create(256, 256, 1, 1, 1, 1, VkFormat::R8G8B8A8Unorm).unwrap();
    let data = vec![255u8; 1024];

    // Invalid level
    let result = texture.set_image_data(10, 0, 0, &data);
    assert!(result.is_err());
    assert_eq!(result.unwrap_err(), Error::InvalidValue);

    // Invalid layer
    let result = texture.set_image_data(0, 10, 0, &data);
    assert!(result.is_err());
    assert_eq!(result.unwrap_err(), Error::InvalidValue);

    // Invalid face
    let result = texture.set_image_data(0, 0, 10, &data);
    assert!(result.is_err());
    assert_eq!(result.unwrap_err(), Error::InvalidValue);
}

#[test]
fn test_texture_get_image_data_invalid_indices() {
    let texture = Ktx2Texture::create(256, 256, 1, 1, 1, 1, VkFormat::R8G8B8A8Unorm).unwrap();

    // Invalid level
    let result = texture.get_image_data(10, 0, 0);
    assert!(result.is_err());
    assert_eq!(result.unwrap_err(), Error::InvalidValue);

    // Invalid layer
    let result = texture.get_image_data(0, 10, 0);
    assert!(result.is_err());
    assert_eq!(result.unwrap_err(), Error::InvalidValue);

    // Invalid face
    let result = texture.get_image_data(0, 0, 10);
    assert!(result.is_err());
    assert_eq!(result.unwrap_err(), Error::InvalidValue);
}

#[test]
fn test_texture_image_data_round_trip() {
    let mut texture = Ktx2Texture::create(4, 4, 1, 1, 1, 1, VkFormat::R8G8B8A8Unorm).unwrap();
    let data: Vec<u8> = (0u32..64).map(|i| i as u8).collect();
    texture.set_image_data(0, 0, 0, &data).unwrap();
    let read = texture.get_image_data(0, 0, 0).unwrap();
    assert_eq!(read, &data[..]);
}

#[test]
fn test_texture_set_image_data_wrong_size() {
    let mut texture = Ktx2Texture::create(4, 4, 1, 1, 1, 1, VkFormat::R8G8B8A8Unorm).unwrap();
    // a 4x4 RGBA8 image needs exactly 64 bytes
    let data = vec![1u8; 63];
    let result = texture.set_image_data(0, 0, 0, &data);
    assert_eq!(result.unwrap_err(), Error::InvalidOperation);
}

#[test]
fn test_texture_image_sizes_per_level() {
    let texture = Ktx2Texture::create(8, 8, 1, 1, 1, 4, VkFormat::R8G8B8A8Unorm).unwrap();
    assert_eq!(texture.get_image_data(0, 0, 0).unwrap().len(), 8 * 8 * 4);
    assert_eq!(texture.get_image_data(1, 0, 0).unwrap().len(), 4 * 4 * 4);
    assert_eq!(texture.get_image_data(2, 0, 0).unwrap().len(), 2 * 2 * 4);
    assert_eq!(texture.get_image_data(3, 0, 0).unwrap().len(), 4);
}

#[test]
fn test_texture_block_compressed_image_size() {
    // a 8x8 BC7 image covers 2x2 blocks of 16 bytes each
    let texture = Ktx2Texture::create(8, 8, 1, 1, 1, 1, VkFormat::Bc7UnormBlock).unwrap();
    assert_eq!(texture.get_image_data(0, 0, 0).unwrap().len(), 4 * 16);
}

#[test]
fn test_texture_metadata_roundtrip() {
    let mut texture = Ktx2Texture::create(256, 256, 1, 1, 1, 1, VkFormat::R8G8B8A8Unorm).unwrap();

    let key = "test_key";
    let value = b"test_value_data";

    // Set metadata
    let result = texture.set_metadata(key, value);
    assert!(result.is_ok());

    // Get metadata
    let result = texture.get_metadata(key);
    assert!(result.is_ok());
    let retrieved_value = result.unwrap();
    assert_eq!(retrieved_value, value);
}

#[test]
fn test_texture_metadata_not_found() {
    let texture = Ktx2Texture::create(256, 256, 1, 1, 1, 1, VkFormat::R8G8B8A8Unorm).unwrap();

    let result = texture.get_metadata("nonexistent_key");
    assert!(result.is_err());
    assert_eq!(result.unwrap_err(), Error::NotFound);
}

#[test]
fn test_texture_metadata_invalid_key() {
    let mut texture = Ktx2Texture::create(256, 256, 1, 1, 1, 1, VkFormat::R8G8B8A8Unorm).unwrap();

    // Key with null byte should fail
    let invalid_key = "test\0key";
    let value = b"test_value";

    let result = texture.set_metadata(invalid_key, value);
    assert!(result.is_err());
    assert_eq!(result.unwrap_err(), Error::InvalidValue);
}

#[test]
fn test_texture_metadata_replace_value() {
    let mut texture = Ktx2Texture::create(16, 16, 1, 1, 1, 1, VkFormat::R8G8B8A8Unorm).unwrap();
    texture.set_metadata("key", b"first").unwrap();
    texture.set_metadata("key", b"second").unwrap();
    assert_eq!(texture.get_metadata("key").unwrap(), b"second");
}

#[test]
fn test_texture_metadata_empty_value() {
    let mut texture = Ktx2Texture::create(16, 16, 1, 1, 1, 1, VkFormat::R8G8B8A8Unorm).unwrap();
    texture.set_metadata("empty", b"").unwrap();
    assert_eq!(texture.get_metadata("empty").unwrap(), b"");
}

#[test]
fn test_compress_basis_simple() {
    let mut texture = Ktx2Texture::create(256, 256, 1, 1, 1, 1, VkFormat::R8G8B8A8Unorm).unwrap();

    // Add some dummy image data first
    let image_data = vec![128u8; 256 * 256 * 4]; // RGBA data
    texture.set_image_data(0, 0, 0, &image_data).unwrap();

    let result = texture.compress_basis_simple(128);
    // Note: This might fail due to missing image data or other reasons
    // but it should not panic
    let _result = result;
}

#[test]
fn test_compress_basis_simple_reports_missing_encoder() {
    let mut texture = Ktx2Texture::create(16, 16, 1, 1, 1, 1, VkFormat::R8G8B8A8Unorm).unwrap();
    assert_eq!(
        texture.compress_basis_simple(128).unwrap_err(),
        Error::LibraryNotLinked
    );

    let mut block = Ktx2Texture::create(16, 16, 1, 1, 1, 1, VkFormat::Bc7UnormBlock).unwrap();
    assert_eq!(
        block.compress_basis_simple(128).unwrap_err(),
        Error::InvalidOperation
    );
}

#[test]
fn test_transcode_basis_rejects_untranscodable() {
    let mut texture = Ktx2Texture::create(16, 16, 1, 1, 1, 1, VkFormat::R8G8B8A8Unorm).unwrap();
    assert_eq!(
        texture.transcode_basis(TranscodeFormat::Bc7Rgba).unwrap_err(),
        Error::InvalidOperation
    );
}

#[test]
fn test_texture_create_rejects_bad_face_count() {
    let result = Ktx2Texture::create(16, 16, 1, 1, 2, 1, VkFormat::R8G8B8A8Unorm);
    assert_eq!(result.unwrap_err(), Error::InvalidValue);
}

#[test]
fn test_texture_create_rejects_excess_mip_levels() {
    let result = Ktx2Texture::create(16, 16, 1, 1, 1, 6, VkFormat::R8G8B8A8Unorm);
    assert_eq!(result.unwrap_err(), Error::InvalidOperation);
}

#[test]
fn test_texture_create_rejects_undefined_format() {
    let result = Ktx2Texture::create(16, 16, 1, 1, 1, 1, VkFormat::Undefined);
    assert_eq!(result.unwrap_err(), Error::InvalidValue);
}

#[test]
fn test_texture_create_out_of_memory() {
    // 65536 x 65536 RGBA8 needs 16 GiB of storage, past the texture cap
    let result = Ktx2Texture::create(65536, 65536, 1, 1, 1, 1, VkFormat::R8G8B8A8Unorm);
    assert_eq!(result.unwrap_err(), Error::OutOfMemory);
}

#[test]
fn test_texture_metadata_oversized_value() {
    let mut texture = Ktx2Texture::create(4, 4, 1, 1, 1, 1, VkFormat::R8G8B8A8Unorm).unwrap();
    // one byte past the metadata-block cap
    let value = vec![0u8; 0x1000_0001];
    assert_eq!(
        texture.set_metadata("big", &value).unwrap_err(),
        Error::InvalidValue
    );
}

#[test]
fn test_texture_send_sync() {
    assert_send::<Ktx2Texture>();
    assert_sync::<Ktx2Texture>();
}

#[test]
fn test_various_texture_formats() {
    let formats = [
        VkFormat::R8G8B8A8Unorm, // VK_FORMAT_R8G8B8A8_UNORM
        VkFormat::R8G8B8Unorm,   // VK_FORMAT_R8G8B8_UNORM
        VkFormat::R8Unorm,       // VK_FORMAT_R8_UNORM
        VkFormat::R8G8Unorm,     // VK_FORMAT_R8G8_UNORM
    ];

    for format in formats {
        let result = Ktx2Texture::create(64, 64, 1, 1, 1, 1, format);
        assert!(
            result.is_ok(),
            "Failed to create texture with format {format:?}",
        );
    }
}

#[test]
fn test_texture_extreme_small_size() {
    let result = Ktx2Texture::create(1, 1, 1, 1, 1, 1, VkFormat::R8G8B8A8Unorm);
    assert!(result.is_ok());

    let texture = result.unwrap();
    assert_eq!(texture.width(), 1);
    assert_eq!(texture.height(), 1);
}

#[test]
fn test_texture_power_of_two_sizes() {
    let sizes = [1, 2, 4, 8, 16, 32, 64, 128, 256, 512, 1024];

    for size in sizes {
        let result = Ktx2Texture::create(size, size, 1, 1, 1, 1, VkFormat::R8G8B8A8Unorm);
        assert!(result.is_ok(), "Failed to create {size}x{size} texture");
    }
}

#[test]
fn test_texture_non_power_of_two_sizes() {
    let sizes = [(3, 5), (7, 11), (13, 17), (100, 200), (333, 777)];

    for (width, height) in sizes {
        let result = Ktx2Texture::create(width, height, 1, 1, 1, 1, VkFormat::R8G8B8A8Unorm);
        assert!(result.is_ok(), "Failed to create {width}x{height} texture");
    }
}
