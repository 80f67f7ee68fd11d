pub mod download_file;
