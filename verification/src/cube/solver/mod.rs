pub mod searcher;
