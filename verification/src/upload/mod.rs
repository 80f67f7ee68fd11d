pub mod uploader;
